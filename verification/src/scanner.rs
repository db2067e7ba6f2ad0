//! Reading one lexeme from a source.

use crate::chars::{
    digit, is_digit, number_part, value_of_digit, whitespace, word_part, word_start,
};
use crate::grammar::{
    comment_close, compound, decimal, escape, lemma_lexeme_bounds, lexeme_at, line_end,
    number_end, operator, punctuation, string_rest, word_end, word_token, Escape, Failure, Piece,
};
use crate::lexer::Lexer;
use crate::token::{KindView, Token, TokenKind, TokenView};
use vstd::prelude::*;

verus! {

/// What was read at a position of a source.
pub enum Scanned {
    /// White space or a comment.
    Skip,
    /// A token.
    Token(Token),
    /// A failure of the grammar.
    Failure(Failure),
    /// A number whose value does not fit in `usize`.
    TooLarge,
}

impl Scanned {
    /// Whether this is what the grammar finds: `piece` itself, but for a
    /// number that is too large to be held.
    pub open spec fn agrees(self, piece: Piece) -> bool {
        match self {
            Scanned::Skip => piece is Skip,
            Scanned::Token(token) => piece == Piece::Word(token@),
            Scanned::Failure(failure) => piece == Piece::Fail(failure),
            Scanned::TooLarge => piece matches Piece::Word(token) && token.kind matches KindView::Number(
                value,
            ) && value > usize::MAX,
        }
    }
}

/// The string that holds `c` alone.
pub fn single(c: char) -> (s: String)
    ensures
        s@ == seq![c],
{
    let mut s = String::new();
    s.push(c);
    s
}

/// The string that holds `c` and an equals sign.
fn with_equals(c: char) -> (s: String)
    ensures
        s@ == seq![c, '='],
{
    let mut s = String::new();
    s.push(c);
    s.push('=');
    s
}

/// The kind of a punctuation mark that is a token by itself.
pub fn punctuation_kind(c: char) -> (kind: Option<TokenKind>)
    ensures
        match kind {
            Some(k) => punctuation(c) == Some(k@),
            None => punctuation(c) is None,
        },
{
    if c == ':' {
        Some(TokenKind::TypeAssignment)
    } else if c == '=' {
        Some(TokenKind::LetAssignment)
    } else if c == ';' {
        Some(TokenKind::Semicolon)
    } else if c == '(' {
        Some(TokenKind::OpenParen)
    } else if c == ')' {
        Some(TokenKind::CloseParen)
    } else if c == '{' {
        Some(TokenKind::OpenBrace)
    } else if c == '}' {
        Some(TokenKind::CloseBrace)
    } else if c == '[' {
        Some(TokenKind::OpenBracket)
    } else if c == ']' {
        Some(TokenKind::CloseBracket)
    } else if c == ',' {
        Some(TokenKind::Comma)
    } else {
        None
    }
}

/// The kind of an arithmetic operator.
pub fn operator_kind(c: char) -> (kind: Option<TokenKind>)
    ensures
        match kind {
            Some(k) => operator(c) == Some(k@),
            None => operator(c) is None,
        },
{
    if c == '+' {
        Some(TokenKind::Plus)
    } else if c == '-' {
        Some(TokenKind::Minus)
    } else if c == '*' {
        Some(TokenKind::Multiply)
    } else if c == '/' {
        Some(TokenKind::Divide)
    } else if c == '%' {
        Some(TokenKind::Modulo)
    } else {
        None
    }
}

/// The compound token that a token of this kind forms with an equals sign
/// behind it.
pub fn compound_of(first: &TokenKind) -> (token: Option<Token>)
    ensures
        match token {
            Some(t) => compound(first@) == Some(t@),
            None => compound(first@) is None,
        },
{
    match first {
        TokenKind::TypeAssignment => Some(
            Token::new(TokenKind::UnTypedAssignment, with_equals(':')),
        ),
        TokenKind::Plus => Some(Token::new(TokenKind::ShortIncrement, with_equals('+'))),
        TokenKind::Minus => Some(Token::new(TokenKind::ShortDecrement, with_equals('-'))),
        TokenKind::Multiply => Some(Token::new(TokenKind::ShortMultiply, with_equals('*'))),
        TokenKind::Divide => Some(Token::new(TokenKind::ShortDivide, with_equals('/'))),
        TokenKind::Modulo => Some(Token::new(TokenKind::ShortModulo, with_equals('%'))),
        _ => None,
    }
}

/// The meaning of the character behind a backslash.
pub fn escape_of(c: char) -> (meaning: Escape)
    ensures
        meaning == escape(c),
{
    if c == 'n' {
        Escape::Char('\n')
    } else if c == 't' {
        Escape::Char('\t')
    } else if c == 'r' {
        Escape::Char('\r')
    } else if c == '0' {
        Escape::Char('\0')
    } else if c == '"' || c == '\'' || c == '\\' {
        Escape::Char(c)
    } else if c == '\n' {
        Escape::Nothing
    } else {
        Escape::Invalid
    }
}

/// Reads a string from behind its opening quote.
pub fn scan_string(source: &[char], start: usize, quote: char) -> (read: (Scanned, usize))
    requires
        start <= source@.len(),
    ensures
        read.0.agrees(string_rest(source@, start as int, quote, Seq::empty()).piece),
        read.1 == string_rest(source@, start as int, quote, Seq::empty()).end,
{
    let mut text = String::new();
    let mut i = start;
    while i < source.len()
        invariant
            start <= i <= source@.len(),
            string_rest(source@, start as int, quote, Seq::empty()) == string_rest(
                source@,
                i as int,
                quote,
                text@,
            ),
        decreases source@.len() - i,
    {
        let c = source[i];
        if c == quote {
            return (Scanned::Token(Token::new(TokenKind::String, text)), i + 1);
        }
        if c == '\\' {
            if i + 1 >= source.len() {
                return (Scanned::Failure(Failure::UnexpectedEof), source.len());
            }
            let escaped = source[i + 1];
            match escape_of(escaped) {
                Escape::Char(c) => {
                    text.push(c);
                },
                Escape::Nothing => {},
                Escape::Invalid => {
                    return (Scanned::Failure(Failure::InvalidEscapeSequence(escaped)), i + 2);
                },
            }
            i += 2;
        } else {
            text.push(c);
            i += 1;
        }
    }
    (Scanned::Failure(Failure::UnexpectedEof), source.len())
}

/// Reads a word: an identifier or a keyword.
pub fn scan_word(source: &[char], start: usize) -> (read: (Token, usize))
    requires
        start < source@.len(),
    ensures
        read.1 == word_end(source@, start + 1),
        read.0@ == word_token(source@.subrange(start as int, read.1 as int)),
{
    let mut text = single(source[start]);
    let mut i = start + 1;
    assert(text@ =~= source@.subrange(start as int, i as int));
    while i < source.len() && word_part(source[i])
        invariant
            start < i <= source@.len(),
            text@ == source@.subrange(start as int, i as int),
            word_end(source@, start + 1) == word_end(source@, i as int),
        decreases source@.len() - i,
    {
        text.push(source[i]);
        i += 1;
        assert(text@ =~= source@.subrange(start as int, i as int));
    }
    (Lexer::identify(text.as_str()), i)
}

/// Reads a number. There is no token where the value does not fit in `usize`.
pub fn scan_number(source: &[char], start: usize) -> (read: (Option<Token>, usize))
    requires
        start < source@.len(),
        is_digit(source@[start as int]),
    ensures
        read.1 == number_end(source@, start + 1),
        match read.0 {
            Some(token) => token@ == (TokenView {
                kind: KindView::Number(decimal(source@.subrange(start as int, read.1 as int))),
                literal: source@.subrange(start as int, read.1 as int),
            }),
            None => decimal(source@.subrange(start as int, read.1 as int)) > usize::MAX,
        },
{
    let first = source[start];
    let mut text = single(first);
    let mut value: usize = value_of_digit(first) as usize;
    let mut fits = true;
    let mut i = start + 1;
    proof {
        assert(text@ =~= source@.subrange(start as int, i as int));
        assert(text@.drop_last() =~= Seq::<char>::empty());
        assert(decimal(text@.drop_last()) == 0);
    }
    while i < source.len() && number_part(source[i])
        invariant
            start < i <= source@.len(),
            text@ == source@.subrange(start as int, i as int),
            number_end(source@, start + 1) == number_end(source@, i as int),
            fits ==> value == decimal(text@),
            !fits ==> decimal(text@) > usize::MAX,
        decreases source@.len() - i,
    {
        let c = source[i];
        proof {
            assert(text@.push(c).drop_last() =~= text@);
            assert(text@.push(c) =~= source@.subrange(start as int, i + 1));
        }
        text.push(c);
        if digit(c) {
            let d = value_of_digit(c) as usize;
            if fits && value <= (usize::MAX - d) / 10 {
                value = value * 10 + d;
            } else {
                fits = false;
            }
        }
        i += 1;
    }
    if fits {
        (Some(Token::new(TokenKind::Number(value), text)), i)
    } else {
        (None, i)
    }
}

/// Finds the end of a line.
pub fn find_line_end(source: &[char], start: usize) -> (end: usize)
    requires
        start <= source@.len(),
    ensures
        end == line_end(source@, start as int),
{
    let mut i = start;
    while i < source.len() && source[i] != '\n'
        invariant
            start <= i <= source@.len(),
            line_end(source@, start as int) == line_end(source@, i as int),
        decreases source@.len() - i,
    {
        i += 1;
    }
    i
}

/// Finds the position behind the mark that closes a block comment.
pub fn find_comment_close(source: &[char], start: usize) -> (end: Option<usize>)
    requires
        start <= source@.len(),
    ensures
        match end {
            Some(e) => comment_close(source@, start as int) == Some(e as int),
            None => comment_close(source@, start as int) is None,
        },
{
    let mut i = start;
    while i < source.len() && i + 1 < source.len()
        invariant
            start <= i <= source@.len(),
            comment_close(source@, start as int) == comment_close(source@, i as int),
        decreases source@.len() - i,
    {
        if source[i] == '*' && source[i + 1] == '/' {
            return Some(i + 2);
        }
        i += 1;
    }
    None
}

/// Reads the lexeme at position `i`.
pub fn scan_lexeme(source: &[char], i: usize) -> (read: (Scanned, usize))
    requires
        i < source@.len(),
    ensures
        read.0.agrees(lexeme_at(source@, i as int).piece),
        read.1 == lexeme_at(source@, i as int).end,
        i < read.1 <= source@.len(),
{
    proof {
        lemma_lexeme_bounds(source@, i as int);
    }
    let c = source[i];
    if let Some(kind) = punctuation_kind(c) {
        (Scanned::Token(Token::new(kind, single(c))), i + 1)
    } else if c == '\'' || c == '"' {
        scan_string(source, i + 1, c)
    } else if word_start(c) {
        let (token, end) = scan_word(source, i);
        (Scanned::Token(token), end)
    } else if digit(c) {
        let (token, end) = scan_number(source, i);
        match token {
            Some(token) => (Scanned::Token(token), end),
            None => (Scanned::TooLarge, end),
        }
    } else if c == '/' && i + 1 < source.len() && source[i + 1] == '/' {
        (Scanned::Skip, find_line_end(source, i + 2))
    } else if c == '/' && i + 1 < source.len() && source[i + 1] == '*' {
        match find_comment_close(source, i + 2) {
            Some(end) => (Scanned::Skip, end),
            None => (Scanned::Failure(Failure::UnexpectedEof), source.len()),
        }
    } else if let Some(kind) = operator_kind(c) {
        let short = if i + 1 < source.len() && source[i + 1] == '=' {
            compound_of(&kind)
        } else {
            None
        };
        match short {
            Some(token) => (Scanned::Token(token), i + 2),
            None => (Scanned::Token(Token::new(kind, single(c))), i + 1),
        }
    } else if whitespace(c) {
        (Scanned::Skip, i + 1)
    } else {
        (Scanned::Failure(Failure::InvalidCharacter(c)), i + 1)
    }
}

} // verus!
