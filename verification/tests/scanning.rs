use penguin::error::LexerError;
use penguin::lexer::{Lexer, Token, TokenKind};

fn lex(source: &str) -> Vec<Token> {
    let mut lexer = Lexer::lex_from_string(source.to_string());
    lexer.lex().unwrap()
}

fn token(kind: TokenKind, literal: &str) -> Token {
    Token::new(kind, literal.to_string())
}

#[test]
fn empty_source_has_no_tokens() {
    assert_eq!(lex(""), vec![]);
    assert_eq!(lex(" \t\r\n"), vec![]);
}

#[test]
fn equals_as_first_character_is_a_plain_assignment() {
    assert_eq!(lex("="), vec![token(TokenKind::LetAssignment, "=")]);
    assert_eq!(
        lex("= 1"),
        vec![token(TokenKind::LetAssignment, "="), token(TokenKind::Number(1), "1")]
    );
}

#[test]
fn equals_behind_other_tokens_is_a_plain_assignment() {
    assert_eq!(
        lex("x = ="),
        vec![
            token(TokenKind::Identifier, "x"),
            token(TokenKind::LetAssignment, "="),
            token(TokenKind::LetAssignment, "="),
        ]
    );
    assert_eq!(
        lex(":=="),
        vec![token(TokenKind::UnTypedAssignment, ":="), token(TokenKind::LetAssignment, "=")]
    );
    assert_eq!(
        lex("+=="),
        vec![token(TokenKind::ShortIncrement, "+="), token(TokenKind::LetAssignment, "=")]
    );
}

#[test]
fn colon_alone_is_a_type_assignment() {
    assert_eq!(lex(":"), vec![token(TokenKind::TypeAssignment, ":")]);
    assert_eq!(
        lex("::"),
        vec![token(TokenKind::TypeAssignment, ":"), token(TokenKind::TypeAssignment, ":")]
    );
}

#[test]
fn colon_and_equals_join_over_white_space_and_comments() {
    let joined = vec![token(TokenKind::UnTypedAssignment, ":=")];
    assert_eq!(lex(":=" ), joined);
    assert_eq!(lex(":   \t\n ="), joined);
    assert_eq!(lex(": /* a type */ ="), joined);
    assert_eq!(lex(": // a type\n="), joined);
}

#[test]
fn operator_and_equals_join_over_white_space() {
    assert_eq!(lex("+ ="), vec![token(TokenKind::ShortIncrement, "+=")]);
    assert_eq!(lex("- ="), vec![token(TokenKind::ShortDecrement, "-=")]);
    assert_eq!(lex("* ="), vec![token(TokenKind::ShortMultiply, "*=")]);
    assert_eq!(lex("/ ="), vec![token(TokenKind::ShortDivide, "/=")]);
    assert_eq!(lex("% ="), vec![token(TokenKind::ShortModulo, "%=")]);
    assert_eq!(lex("+ /* gap */ ="), vec![token(TokenKind::ShortIncrement, "+=")]);
}

#[test]
fn short_assignments_are_read_at_once() {
    assert_eq!(lex("+="), vec![token(TokenKind::ShortIncrement, "+=")]);
    assert_eq!(lex("-="), vec![token(TokenKind::ShortDecrement, "-=")]);
    assert_eq!(lex("*="), vec![token(TokenKind::ShortMultiply, "*=")]);
    assert_eq!(lex("/="), vec![token(TokenKind::ShortDivide, "/=")]);
    assert_eq!(lex("%="), vec![token(TokenKind::ShortModulo, "%=")]);
}

#[test]
fn operator_at_the_end_of_the_source_is_kept() {
    assert_eq!(lex("+"), vec![token(TokenKind::Plus, "+")]);
    assert_eq!(lex("-"), vec![token(TokenKind::Minus, "-")]);
    assert_eq!(lex("*"), vec![token(TokenKind::Multiply, "*")]);
    assert_eq!(lex("/"), vec![token(TokenKind::Divide, "/")]);
    assert_eq!(lex("%"), vec![token(TokenKind::Modulo, "%")]);
    assert_eq!(
        lex("1 +"),
        vec![token(TokenKind::Number(1), "1"), token(TokenKind::Plus, "+")]
    );
}

#[test]
fn operator_before_a_line_break() {
    let mut lexer = Lexer::lex_from_string("+\n-".to_string());
    let tokens = lexer.lex().unwrap();
    assert_eq!(tokens, vec![token(TokenKind::Plus, "+"), token(TokenKind::Minus, "-")]);
    assert_eq!(lexer.loc.current_location(), (2, 1));
}

#[test]
fn punctuation_marks() {
    assert_eq!(
        lex(";,()[]{}"),
        vec![
            token(TokenKind::Semicolon, ";"),
            token(TokenKind::Comma, ","),
            token(TokenKind::OpenParen, "("),
            token(TokenKind::CloseParen, ")"),
            token(TokenKind::OpenBracket, "["),
            token(TokenKind::CloseBracket, "]"),
            token(TokenKind::OpenBrace, "{"),
            token(TokenKind::CloseBrace, "}"),
        ]
    );
}

#[test]
fn keywords_in_any_case() {
    assert_eq!(lex("let"), vec![token(TokenKind::Assign, "let")]);
    assert_eq!(lex("LET"), vec![token(TokenKind::Assign, "LET")]);
    assert_eq!(lex("Let"), vec![token(TokenKind::Assign, "Let")]);
    assert_eq!(lex("func"), vec![token(TokenKind::Function, "func")]);
    assert_eq!(lex("FUNC"), vec![token(TokenKind::Function, "FUNC")]);
    assert_eq!(lex("return"), vec![token(TokenKind::Return, "return")]);
    assert_eq!(lex("ReTuRn"), vec![token(TokenKind::Return, "ReTuRn")]);
    assert_eq!(lex("import"), vec![token(TokenKind::Import, "import")]);
    assert_eq!(lex("IMPORT"), vec![token(TokenKind::Import, "IMPORT")]);
}

#[test]
fn words_that_are_no_keywords() {
    assert_eq!(lex("lets"), vec![token(TokenKind::Identifier, "lets")]);
    assert_eq!(lex("le"), vec![token(TokenKind::Identifier, "le")]);
    assert_eq!(lex("fun"), vec![token(TokenKind::Identifier, "fun")]);
    assert_eq!(lex("returns"), vec![token(TokenKind::Identifier, "returns")]);
    assert_eq!(lex("imports"), vec![token(TokenKind::Identifier, "imports")]);
    assert_eq!(lex("_let"), vec![token(TokenKind::Identifier, "_let")]);
    assert_eq!(lex("let1"), vec![token(TokenKind::Identifier, "let1")]);
}

#[test]
fn identify_recognises_keywords_and_keeps_the_literal() {
    assert_eq!(Lexer::identify("let"), token(TokenKind::Assign, "let"));
    assert_eq!(Lexer::identify("lEt"), token(TokenKind::Assign, "lEt"));
    assert_eq!(Lexer::identify("Func"), token(TokenKind::Function, "Func"));
    assert_eq!(Lexer::identify("RETURN"), token(TokenKind::Return, "RETURN"));
    assert_eq!(Lexer::identify("imPort"), token(TokenKind::Import, "imPort"));
    assert_eq!(Lexer::identify("penguin"), token(TokenKind::Identifier, "penguin"));
    assert_eq!(Lexer::identify(""), token(TokenKind::Identifier, ""));
}

#[test]
fn identify_beyond_ascii() {
    assert_eq!(Lexer::identify("Été"), token(TokenKind::Identifier, "Été"));
    assert_eq!(Lexer::identify("İmport"), token(TokenKind::Identifier, "İmport"));
    assert_eq!(Lexer::identify("leţ"), token(TokenKind::Identifier, "leţ"));
}

#[test]
fn words_may_hold_letters_and_digits_beyond_ascii() {
    assert_eq!(lex("xé"), vec![token(TokenKind::Identifier, "xé")]);
    assert_eq!(lex("a\u{0663}b"), vec![token(TokenKind::Identifier, "a\u{0663}b")]);
    assert_eq!(
        lex("größe = 1"),
        vec![
            token(TokenKind::Identifier, "größe"),
            token(TokenKind::LetAssignment, "="),
            token(TokenKind::Number(1), "1"),
        ]
    );
}

#[test]
fn a_word_ends_at_a_character_that_is_no_letter_or_digit() {
    let mut lexer = Lexer::lex_from_string("x\u{2192}".to_string());
    assert!(matches!(lexer.lex(), Err(LexerError::InvalidCharacter(_, '\u{2192}'))));
}

#[test]
fn a_word_does_not_begin_beyond_ascii() {
    let mut lexer = Lexer::lex_from_string("éx".to_string());
    assert!(matches!(lexer.lex(), Err(LexerError::InvalidCharacter(_, 'é'))));
}

#[test]
fn white_space_beyond_ascii_is_skipped() {
    assert_eq!(
        lex("a\u{00a0}b\u{2003}c\u{000b}d\u{000c}e"),
        vec![
            token(TokenKind::Identifier, "a"),
            token(TokenKind::Identifier, "b"),
            token(TokenKind::Identifier, "c"),
            token(TokenKind::Identifier, "d"),
            token(TokenKind::Identifier, "e"),
        ]
    );
}

#[test]
fn numbers_and_their_values() {
    assert_eq!(lex("0"), vec![token(TokenKind::Number(0), "0")]);
    assert_eq!(lex("007"), vec![token(TokenKind::Number(7), "007")]);
    assert_eq!(lex("1_000_000"), vec![token(TokenKind::Number(1_000_000), "1_000_000")]);
    assert_eq!(lex("4_2_"), vec![token(TokenKind::Number(42), "4_2_")]);
    assert_eq!(lex("65535"), vec![token(TokenKind::Number(65535), "65535")]);
    assert_eq!(
        lex("4294967295"),
        vec![token(TokenKind::Number(4294967295), "4294967295")]
    );
}

#[test]
fn the_largest_number() {
    let text = usize::MAX.to_string();
    assert_eq!(lex(&text), vec![token(TokenKind::Number(usize::MAX), &text)]);
}

#[test]
fn a_number_ends_at_a_letter() {
    assert_eq!(
        lex("12ab"),
        vec![token(TokenKind::Number(12), "12"), token(TokenKind::Identifier, "ab")]
    );
    assert_eq!(
        lex("1_x"),
        vec![token(TokenKind::Number(1), "1_"), token(TokenKind::Identifier, "x")]
    );
}

#[test]
fn a_digit_beyond_ascii_begins_no_number() {
    let mut lexer = Lexer::lex_from_string("\u{0663}".to_string());
    assert!(matches!(lexer.lex(), Err(LexerError::InvalidCharacter(_, '\u{0663}'))));
    let mut lexer = Lexer::lex_from_string("1\u{00b2}".to_string());
    assert!(matches!(lexer.lex(), Err(LexerError::InvalidCharacter(_, '\u{00b2}'))));
}

#[test]
fn a_number_that_does_not_fit_has_no_checked_result() {
    let mut lexer = Lexer::lex_from_string("x = 340282366920938463463374607431768211456;".to_string());
    assert!(!lexer.fits());
    assert!(lexer.lex_checked().is_none());
    assert_eq!(lexer.loc.index, 0);
    assert_eq!(lexer.loc.current_location(), (1, 0));
}

#[test]
fn one_more_than_the_largest_number_does_not_fit() {
    let mut text = usize::MAX.to_string();
    let last = text.pop().unwrap();
    assert_eq!(last, '5');
    text.push('6');
    let mut lexer = Lexer::lex_from_string(text);
    assert!(!lexer.fits());
    assert!(lexer.lex_checked().is_none());
}

#[test]
fn a_number_behind_a_failure_is_not_read() {
    let mut lexer = Lexer::lex_from_string("$ 340282366920938463463374607431768211456".to_string());
    assert!(lexer.fits());
    assert!(matches!(lexer.lex_checked(), Some(Err(LexerError::InvalidCharacter(_, '$')))));
}

#[test]
fn a_large_number_in_a_string_or_a_comment_is_no_number() {
    let mut lexer = Lexer::lex_from_string(
        "'340282366920938463463374607431768211456' // 340282366920938463463374607431768211456"
            .to_string(),
    );
    assert!(lexer.fits());
    let tokens = lexer.lex_checked().unwrap().unwrap();
    assert_eq!(tokens, vec![token(TokenKind::String, "340282366920938463463374607431768211456")]);
}

#[test]
fn checked_lexing_gives_what_lexing_gives() {
    let source = "func main() : u32 = { return 5; }";
    let mut checked = Lexer::lex_from_string(source.to_string());
    assert!(checked.is_ready());
    assert!(checked.fits());
    let tokens = checked.lex_checked().unwrap().unwrap();
    assert_eq!(tokens, lex(source));
    assert_eq!(checked.loc.index, 33);
}

#[test]
fn strings_in_either_quote() {
    assert_eq!(lex("\"\""), vec![token(TokenKind::String, "")]);
    assert_eq!(lex("''"), vec![token(TokenKind::String, "")]);
    assert_eq!(lex("'a b'"), vec![token(TokenKind::String, "a b")]);
    assert_eq!(lex("\"it's\""), vec![token(TokenKind::String, "it's")]);
    assert_eq!(lex("'say \"hi\"'"), vec![token(TokenKind::String, "say \"hi\"")]);
}

#[test]
fn every_escape_sequence() {
    assert_eq!(
        lex("\"\\n\\t\\r\\0\\\"\\'\\\\\""),
        vec![token(TokenKind::String, "\n\t\r\0\"'\\")]
    );
}

#[test]
fn a_backslash_before_a_line_break_continues_the_line() {
    assert_eq!(lex("\"ab\\\ncd\""), vec![token(TokenKind::String, "abcd")]);
    assert_eq!(lex("\"ab\\\n\""), vec![token(TokenKind::String, "ab")]);
    assert_eq!(lex("'\\\n'"), vec![token(TokenKind::String, "")]);
}

#[test]
fn a_string_keeps_comments_and_line_breaks() {
    assert_eq!(lex("'// no comment'"), vec![token(TokenKind::String, "// no comment")]);
    assert_eq!(lex("'/* none */'"), vec![token(TokenKind::String, "/* none */")]);
    assert_eq!(lex("'a\nb'"), vec![token(TokenKind::String, "a\nb")]);
}

#[test]
fn strings_side_by_side() {
    assert_eq!(
        lex("'a''b'\"c\""),
        vec![
            token(TokenKind::String, "a"),
            token(TokenKind::String, "b"),
            token(TokenKind::String, "c"),
        ]
    );
}

#[test]
fn invalid_escape_sequence() {
    let mut lexer = Lexer::lex_from_string("\"a\\qb\"".to_string());
    match lexer.lex() {
        Err(LexerError::InvalidEscapeSequence(loc, c)) => {
            assert_eq!(c, 'q');
            assert_eq!(loc.index, 4);
            assert_eq!(loc.current_location(), (1, 4));
        }
        other => panic!("expected an invalid escape sequence, got {:?}", other),
    }
}

#[test]
fn invalid_character() {
    let mut lexer = Lexer::lex_from_string("let $".to_string());
    match lexer.lex() {
        Err(LexerError::InvalidCharacter(loc, c)) => {
            assert_eq!(c, '$');
            assert_eq!(loc.index, 5);
            assert_eq!(loc.current_location(), (1, 5));
        }
        other => panic!("expected an invalid character, got {:?}", other),
    }
    for source in ["#", "@", "!", "?", "\\", ".", "&", "|", "<", ">", "^", "~", "`"] {
        let mut lexer = Lexer::lex_from_string(source.to_string());
        assert!(matches!(lexer.lex(), Err(LexerError::InvalidCharacter(_, _))));
    }
}

#[test]
fn unterminated_string_is_an_unexpected_end() {
    let mut lexer = Lexer::lex_from_string("\"hello".to_string());
    match lexer.lex() {
        Err(LexerError::UnexpectedEOF(loc)) => {
            assert_eq!(loc.index, 6);
            assert_eq!(loc.current_location(), (1, 6));
        }
        other => panic!("expected an unexpected end, got {:?}", other),
    }
    let mut lexer = Lexer::lex_from_string("'hello\"".to_string());
    assert!(matches!(lexer.lex(), Err(LexerError::UnexpectedEOF(_))));
    let mut lexer = Lexer::lex_from_string("'".to_string());
    assert!(matches!(lexer.lex(), Err(LexerError::UnexpectedEOF(_))));
}

#[test]
fn string_ending_in_a_backslash_is_an_unexpected_end() {
    let mut lexer = Lexer::lex_from_string("\"hello \\".to_string());
    match lexer.lex() {
        Err(LexerError::UnexpectedEOF(loc)) => {
            assert_eq!(loc.index, 8);
        }
        other => panic!("expected an unexpected end, got {:?}", other),
    }
    let mut lexer = Lexer::lex_from_string("\"hello\\\"".to_string());
    assert!(matches!(lexer.lex(), Err(LexerError::UnexpectedEOF(_))));
}

#[test]
fn a_quote_behind_a_word_opens_a_string() {
    let mut lexer = Lexer::lex_from_string("hello\"".to_string());
    assert!(matches!(lexer.lex(), Err(LexerError::UnexpectedEOF(_))));
}

#[test]
fn unterminated_block_comment_is_an_unexpected_end() {
    for source in ["/*", "/* u32 = 123;", "x /* *", "/*/", "/* * /"] {
        let mut lexer = Lexer::lex_from_string(source.to_string());
        match lexer.lex() {
            Err(LexerError::UnexpectedEOF(loc)) => {
                assert_eq!(loc.index, source.chars().count());
            }
            other => panic!("expected an unexpected end, got {:?}", other),
        }
    }
}

#[test]
fn block_comments_between_tokens() {
    let both = vec![token(TokenKind::Identifier, "a"), token(TokenKind::Identifier, "b")];
    assert_eq!(lex("a/**/b"), both);
    assert_eq!(lex("a /* c */ b"), both);
    assert_eq!(lex("a/***/b"), both);
    assert_eq!(lex("a/* ** */b"), both);
    assert_eq!(lex("a/* \n * \n */b"), both);
    assert_eq!(lex("a/* // */b"), both);
    assert_eq!(lex("a/* ' */b"), both);
}

#[test]
fn block_comments_do_not_nest() {
    assert_eq!(
        lex("/* a /* b */ c */"),
        vec![
            token(TokenKind::Identifier, "c"),
            token(TokenKind::Multiply, "*"),
            token(TokenKind::Divide, "/"),
        ]
    );
}

#[test]
fn line_comments() {
    assert_eq!(lex("// nothing"), vec![]);
    assert_eq!(lex("//"), vec![]);
    assert_eq!(
        lex("a // b\nc"),
        vec![token(TokenKind::Identifier, "a"), token(TokenKind::Identifier, "c")]
    );
    assert_eq!(lex("// /* \n x"), vec![token(TokenKind::Identifier, "x")]);
    assert_eq!(
        lex("1 / 2 // half"),
        vec![
            token(TokenKind::Number(1), "1"),
            token(TokenKind::Divide, "/"),
            token(TokenKind::Number(2), "2"),
        ]
    );
}

#[test]
fn the_first_error_ends_the_scan() {
    let mut lexer = Lexer::lex_from_string("a $ 'b".to_string());
    match lexer.lex() {
        Err(LexerError::InvalidCharacter(loc, c)) => {
            assert_eq!(c, '$');
            assert_eq!(loc.index, 3);
        }
        other => panic!("expected an invalid character, got {:?}", other),
    }
}

#[test]
fn lexing_twice_gives_the_same_tokens() {
    let source = "let x : u32 = 5; // five\nfunc main() := { return 'a\\tb'; }";
    assert_eq!(lex(source), lex(source));
    let mut first = Lexer::lex_from_string("let 'x".to_string());
    let mut second = Lexer::lex_from_string("let 'x".to_string());
    assert!(matches!(first.lex(), Err(LexerError::UnexpectedEOF(_))));
    assert!(matches!(second.lex(), Err(LexerError::UnexpectedEOF(_))));
    assert_eq!(first.loc.index, second.loc.index);
}

#[test]
fn a_second_run_of_one_lexer_begins_where_the_first_stopped() {
    let mut lexer = Lexer::lex_from_string("a b".to_string());
    assert_eq!(lexer.lex().unwrap().len(), 2);
    assert_eq!(lexer.lex().unwrap(), vec![]);
    let mut lexer = Lexer::lex_from_string("a $ b".to_string());
    assert!(lexer.lex().is_err());
    assert_eq!(lexer.lex().unwrap(), vec![token(TokenKind::Identifier, "b")]);
}

#[test]
fn the_literals_spell_the_source_without_white_space_and_comments() {
    let source = "let total : u32 = 1_000 + x2 /* sum */ ; // done\nfunc f ( a , b ) := { return a %= b ; }";
    let spelled: String = lex(source).iter().map(|token| token.literal.as_str()).collect();
    assert_eq!(spelled, "lettotal:u32=1_000+x2;funcf(a,b):={returna%=b;}");
}

#[test]
fn the_literals_of_joined_tokens_spell_the_source_without_the_gap() {
    let spelled: String = lex("a : = b + = c").iter().map(|token| token.literal.as_str()).collect();
    assert_eq!(spelled, "a:=b+=c");
}

#[test]
fn the_typed_assignment_is_three_tokens() {
    assert_eq!(
        lex(": u32 ="),
        vec![
            token(TokenKind::TypeAssignment, ":"),
            token(TokenKind::Identifier, "u32"),
            token(TokenKind::LetAssignment, "="),
        ]
    );
}

#[test]
fn the_cursor_is_left_at_the_end() {
    let mut lexer = Lexer::lex_from_string("a\nbc".to_string());
    lexer.lex().unwrap();
    assert_eq!(lexer.loc.index, 4);
    assert_eq!(lexer.loc.line, 2);
    assert_eq!(lexer.loc.column, 2);
    assert_eq!(lexer.loc.prev_line_length, 1);
    assert_eq!(lexer.loc.current_line_length, 2);
    assert_eq!(lexer.loc.source, "string");
    assert_eq!(lexer.current_char(), None);
}

#[test]
fn the_position_of_an_error_on_a_later_line() {
    let mut lexer = Lexer::new("main.pg".to_string(), "let a := 1;\nlet b := #;\n".to_string());
    match lexer.lex() {
        Err(error) => {
            assert_eq!(error.message(), "[main.pg:2:10] Invalid character '#'.");
        }
        other => panic!("expected an error, got {:?}", other),
    }
}
