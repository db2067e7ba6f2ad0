//! What holds of every scan.

use crate::chars::{digit_value, is_digit, is_whitespace, is_word_part, is_word_start};
use crate::grammar::{
    all_ascii, ascii_lower_case, comment_close, compound, decimal, emit, escape, fail, keyword,
    lemma_lexeme_bounds, lemma_scan_keeps, lexeme_at, scan, significant, spelling, string_rest,
    word_end, word_token, Escape, Failure, Outcome, Piece,
};
use crate::lexer::{lemma_source_is_held, Lexer};
use crate::location::lemma_walk_counts;
use crate::text::{digit_char, numeral};
use crate::token::{KindView, TokenView};
use vstd::prelude::*;

verus! {

/// Whether a token that can still form a compound is spelled as the first
/// character of that compound.
pub open spec fn plainly_spelled(token: TokenView) -> bool {
    compound(token.kind) matches Some(joined) ==> joined.literal == token.literal.push('=')
}

/// A string, whatever follows its opening quote, is a string token or a
/// failure.
proof fn lemma_string_rest_kind(s: Seq<char>, i: int, quote: char, text: Seq<char>)
    ensures
        string_rest(s, i, quote, text).piece matches Piece::Word(token) ==> token.kind is String,
        !(string_rest(s, i, quote, text).piece is Skip),
    decreases s.len() - i,
{
    if 0 <= i < s.len() && s[i] != quote {
        if s[i] == '\\' {
            if i + 1 < s.len() {
                match escape(s[i + 1]) {
                    Escape::Char(c) => {
                        lemma_string_rest_kind(s, i + 2, quote, text.push(c));
                    },
                    Escape::Nothing => {
                        lemma_string_rest_kind(s, i + 2, quote, text);
                    },
                    Escape::Invalid => {},
                }
            }
        } else {
            lemma_string_rest_kind(s, i + 1, quote, text.push(s[i]));
        }
    }
}

/// The literal of a token other than a string is the text that it stands
/// for in the source. Every token is plainly spelled as it is read, and a
/// plain assignment is an equals sign.
pub proof fn lemma_literal_is_source(s: Seq<char>, i: int)
    requires
        0 <= i < s.len(),
    ensures
        lexeme_at(s, i).piece matches Piece::Word(token) ==> plainly_spelled(token) && (token.kind
            is String || token.literal == s.subrange(i, lexeme_at(s, i).end)),
        lexeme_at(s, i).piece matches Piece::Word(token) ==> (token.kind is LetAssignment
            ==> token.literal == seq!['=']),
{
    lemma_lexeme_bounds(s, i);
    lemma_string_rest_kind(s, i + 1, s[i], Seq::empty());
    if let Piece::Word(token) = lexeme_at(s, i).piece {
        if !(token.kind is String) {
            assert(token.literal =~= s.subrange(i, lexeme_at(s, i).end));
        }
        if let Some(joined) = compound(token.kind) {
            assert(joined.literal =~= token.literal.push('='));
        }
        if token.kind is LetAssignment {
            assert(token.literal =~= seq!['=']);
        }
    }
}

/// Emitting a token adds its literal to the spelling, also where the token
/// is joined to the one before it.
pub proof fn lemma_emit_spells(emitted: Seq<TokenView>, token: TokenView)
    requires
        emitted.len() > 0 ==> plainly_spelled(emitted.last()),
        token.kind is LetAssignment ==> token.literal == seq!['='],
    ensures
        spelling(emit(emitted, token)) == spelling(emitted) + token.literal,
{
    let after = emit(emitted, token);
    if token.kind is LetAssignment && emitted.len() > 0 && compound(emitted.last().kind) is Some {
        assert(after.drop_last() =~= emitted.drop_last());
        assert(spelling(after) =~= spelling(emitted.drop_last()) + after.last().literal);
        assert(spelling(emitted) =~= spelling(emitted.drop_last()) + emitted.last().literal);
        assert(after.last().literal =~= emitted.last().literal + seq!['=']);
        assert(spelling(after) =~= spelling(emitted) + token.literal);
    } else {
        assert(after.drop_last() =~= emitted);
    }
}

/// The literals of the tokens, one behind the other, are the source without
/// its white space and comments, for every scan that ends without a failure
/// and emits no string: a string's literal is its content, not its text in
/// the source.
pub proof fn lemma_spelling_is_source(s: Seq<char>, i: int, emitted: Seq<TokenView>)
    requires
        scan(s, i, emitted).failure is None,
        emitted.len() > 0 ==> plainly_spelled(emitted.last()),
        forall|k: int|
            emitted.len() <= k < scan(s, i, emitted).tokens.len() ==> !(#[trigger] scan(
                s,
                i,
                emitted,
            ).tokens[k].kind is String),
    ensures
        spelling(scan(s, i, emitted).tokens) == spelling(emitted) + significant(s, i),
    decreases s.len() - i,
{
    if 0 <= i < s.len() {
        lemma_lexeme_bounds(s, i);
        lemma_literal_is_source(s, i);
        let lexeme = lexeme_at(s, i);
        match lexeme.piece {
            Piece::Skip => {
                lemma_spelling_is_source(s, lexeme.end, emitted);
            },
            Piece::Word(token) => {
                let after = emit(emitted, token);
                if token.kind is String {
                    lemma_scan_keeps(s, lexeme.end, after, emitted.len() as int);
                    assert(scan(s, i, emitted).tokens[emitted.len() as int].kind is String);
                }
                lemma_emit_spells(emitted, token);
                assert(after.len() >= emitted.len());
                lemma_spelling_is_source(s, lexeme.end, after);
                assert(spelling(scan(s, i, emitted).tokens) =~= spelling(emitted) + significant(
                    s,
                    i,
                ));
            },
            Piece::Fail(_) => {},
        }
    } else {
        assert(spelling(emitted) + significant(s, i) =~= spelling(emitted));
    }
}

/// The literals that a lexer emits, one behind the other, are its source
/// from the cursor on without the white space and the comments, where the
/// scan ends without a failure and emits no string.
pub proof fn lemma_lex_spells_source(lexer: Lexer)
    requires
        lexer.outcome().failure is None,
        forall|k: int|
            0 <= k < lexer.outcome().tokens.len() ==> !(#[trigger] lexer.outcome().tokens[k].kind
                is String),
    ensures
        spelling(lexer.outcome().tokens) == significant(lexer@.source, lexer@.loc.index as int),
{
    lemma_spelling_is_source(lexer@.source, lexer@.loc.index as int, Seq::empty());
    assert(spelling(Seq::<TokenView>::empty()) + significant(
        lexer@.source,
        lexer@.loc.index as int,
    ) =~= significant(lexer@.source, lexer@.loc.index as int));
}

/// Two lexers over the same source, with their cursors at the same place, owe
/// the same tokens or the same failure, and stop at the same place.
pub proof fn lemma_lex_is_a_function_of_the_source(first: Lexer, second: Lexer)
    requires
        first@.source == second@.source,
        first@.loc.index == second@.loc.index,
    ensures
        first.outcome() == second.outcome(),
{
}

/// A colon and an equals sign with nothing but white space between them are
/// one token, `:=`.
pub proof fn lemma_spaced_assignment(gap: Seq<char>)
    requires
        forall|k: int| 0 <= k < gap.len() ==> is_whitespace(#[trigger] gap[k]),
    ensures
        scan(seq![':'] + gap + seq!['='], 0, Seq::empty()) == (Outcome {
            tokens: seq![
                TokenView { kind: KindView::UnTypedAssignment, literal: seq![':', '='] },
            ],
            failure: None,
            stop: gap.len() as int + 2,
        }),
{
    let s = seq![':'] + gap + seq!['='];
    let colon = TokenView { kind: KindView::TypeAssignment, literal: seq![':'] };
    let joined = TokenView { kind: KindView::UnTypedAssignment, literal: seq![':', '='] };
    let last = gap.len() as int + 1;
    assert(emit(Seq::empty(), colon) =~= seq![colon]);
    assert(emit(seq![colon], lexeme_at(s, last).piece->Word_0) =~= seq![joined]);
    assert(scan(s, last, seq![colon]) == scan(s, last + 1, seq![joined]));
    lemma_gap_is_skipped(s, 1, last, seq![colon]);
}

/// White space is passed over.
proof fn lemma_gap_is_skipped(s: Seq<char>, from: int, to: int, emitted: Seq<TokenView>)
    requires
        0 <= from <= to <= s.len(),
        forall|k: int| from <= k < to ==> is_whitespace(#[trigger] s[k]),
    ensures
        scan(s, from, emitted) == scan(s, to, emitted),
    decreases to - from,
{
    if from < to {
        lemma_gap_is_skipped(s, from + 1, to, emitted);
    }
}

/// A string that holds neither its quote nor a backslash up to the end of the
/// source is never closed.
proof fn lemma_string_runs_out(s: Seq<char>, i: int, quote: char, text: Seq<char>)
    requires
        0 <= i <= s.len(),
        forall|k: int| i <= k < s.len() ==> #[trigger] s[k] != quote && s[k] != '\\',
    ensures
        string_rest(s, i, quote, text) == fail(Failure::UnexpectedEof, s.len() as int),
    decreases s.len() - i,
{
    if i < s.len() {
        lemma_string_runs_out(s, i + 1, quote, text.push(s[i]));
    }
}

/// A string that holds plain characters and then a backslash at the very end
/// of the source is never closed.
proof fn lemma_string_ends_in_backslash(s: Seq<char>, i: int, quote: char, text: Seq<char>)
    requires
        0 <= i < s.len(),
        quote != '\\',
        s.last() == '\\',
        forall|k: int| i <= k < s.len() - 1 ==> #[trigger] s[k] != quote && s[k] != '\\',
    ensures
        string_rest(s, i, quote, text) == fail(Failure::UnexpectedEof, s.len() as int),
    decreases s.len() - i,
{
    if i < s.len() - 1 {
        lemma_string_ends_in_backslash(s, i + 1, quote, text.push(s[i]));
    }
}

/// A string without a closing quote is an unexpected end of the source:
/// where the rest of the source holds neither the quote nor a backslash, and
/// where it holds neither but for a backslash as its last character.
pub proof fn lemma_unclosed_string(s: Seq<char>, i: int, emitted: Seq<TokenView>)
    requires
        0 <= i < s.len(),
        s[i] == '"' || s[i] == '\'',
        forall|k: int| i < k < s.len() - 1 ==> #[trigger] s[k] != s[i] && s[k] != '\\',
        i < s.len() - 1 ==> s.last() != s[i],
    ensures
        scan(s, i, emitted) == (Outcome {
            tokens: emitted,
            failure: Some(Failure::UnexpectedEof),
            stop: s.len() as int,
        }),
{
    if i < s.len() - 1 && s.last() == '\\' {
        lemma_string_ends_in_backslash(s, i + 1, s[i], Seq::empty());
    } else {
        lemma_string_runs_out(s, i + 1, s[i], Seq::empty());
    }
}

/// No block comment ends where no `*/` stands.
proof fn lemma_comment_runs_out(s: Seq<char>, i: int)
    requires
        0 <= i,
        forall|k: int| i <= k && k + 1 < s.len() ==> !(#[trigger] s[k] == '*' && s[k + 1] == '/'),
    ensures
        comment_close(s, i) is None,
    decreases s.len() - i,
{
    if i + 1 < s.len() {
        lemma_comment_runs_out(s, i + 1);
    }
}

/// A block comment ends behind the first `*/`.
proof fn lemma_comment_closes(s: Seq<char>, i: int, close: int)
    requires
        0 <= i <= close,
        close + 1 < s.len(),
        s[close] == '*' && s[close + 1] == '/',
        forall|k: int| i <= k < close ==> !(#[trigger] s[k] == '*' && s[k + 1] == '/'),
    ensures
        comment_close(s, i) == Some(close + 2),
    decreases close - i,
{
    if i < close {
        lemma_comment_closes(s, i + 1, close);
    }
}

/// A block comment that nothing closes is an unexpected end of the source.
pub proof fn lemma_unclosed_comment(s: Seq<char>, i: int, emitted: Seq<TokenView>)
    requires
        0 <= i,
        i + 1 < s.len(),
        s[i] == '/' && s[i + 1] == '*',
        forall|k: int|
            i + 2 <= k && k + 1 < s.len() ==> !(#[trigger] s[k] == '*' && s[k + 1] == '/'),
    ensures
        scan(s, i, emitted) == (Outcome {
            tokens: emitted,
            failure: Some(Failure::UnexpectedEof),
            stop: s.len() as int,
        }),
{
    lemma_comment_runs_out(s, i + 2);
}

/// A block comment that is closed emits nothing and leaves the tokens before
/// it as they are: the scan goes on behind it as if it had begun there.
pub proof fn lemma_closed_comment(s: Seq<char>, i: int, close: int, emitted: Seq<TokenView>)
    requires
        0 <= i,
        i + 2 <= close,
        close + 1 < s.len(),
        s[i] == '/' && s[i + 1] == '*',
        s[close] == '*' && s[close + 1] == '/',
        forall|k: int| i + 2 <= k < close ==> !(#[trigger] s[k] == '*' && s[k + 1] == '/'),
    ensures
        scan(s, i, emitted) == scan(s, close + 2, emitted),
{
    lemma_comment_closes(s, i + 2, close);
}

/// A run of word characters ends where the source ends.
proof fn lemma_word_runs_to_the_end(s: Seq<char>, i: int)
    requires
        0 <= i <= s.len(),
        forall|k: int| i <= k < s.len() ==> is_word_part(#[trigger] s[k]),
    ensures
        word_end(s, i) == s.len(),
    decreases s.len() - i,
{
    if i < s.len() {
        lemma_word_runs_to_the_end(s, i + 1);
    }
}

/// A source that is one word is one token: the word's.
pub proof fn lemma_word_is_one_token(text: Seq<char>)
    requires
        text.len() > 0,
        is_word_start(text[0]),
        forall|k: int| 0 <= k < text.len() ==> is_word_part(#[trigger] text[k]),
    ensures
        scan(text, 0, Seq::empty()) == (Outcome {
            tokens: seq![word_token(text)],
            failure: None,
            stop: text.len() as int,
        }),
{
    lemma_word_runs_to_the_end(text, 1);
    assert(text.subrange(0, text.len() as int) =~= text);
    assert(emit(Seq::empty(), word_token(text)) =~= seq![word_token(text)]);
    assert(scan(text, 0, Seq::empty()) == scan(text, text.len() as int, seq![word_token(text)]));
}

/// A scan stops at or behind the position at which it began, and within the
/// source where it began there. Without a failure it stops at the end of the
/// source.
pub proof fn lemma_scan_stops(s: Seq<char>, i: int, emitted: Seq<TokenView>)
    ensures
        i <= scan(s, i, emitted).stop,
        0 <= i <= s.len() ==> scan(s, i, emitted).stop <= s.len(),
        0 <= i <= s.len() && scan(s, i, emitted).failure is None ==> scan(s, i, emitted).stop
            == s.len(),
    decreases s.len() - i,
{
    if 0 <= i < s.len() {
        lemma_lexeme_bounds(s, i);
        let lexeme = lexeme_at(s, i);
        match lexeme.piece {
            Piece::Skip => {
                lemma_scan_stops(s, lexeme.end, emitted);
            },
            Piece::Word(token) => {
                lemma_scan_stops(s, lexeme.end, emit(emitted, token));
            },
            Piece::Fail(_) => {},
        }
    }
}

/// A lexer whose counters have room for the rest of its source is left with
/// its cursor where the scan stopped.
pub proof fn lemma_lex_stops(lexer: Lexer)
    requires
        lexer.ready(),
    ensures
        lexer@.loc.walked(
            lexer@.source,
            lexer@.loc.index as int,
            lexer.outcome().stop,
        ).index == lexer.outcome().stop,
{
    let start = lexer@.loc.index as int;
    lemma_source_is_held(lexer);
    lemma_scan_stops(lexer@.source, start, Seq::empty());
    if start <= lexer@.source.len() {
        lemma_walk_counts(lexer@.loc, lexer@.source, start, lexer.outcome().stop);
    }
}

/// A word of ASCII letters that is a keyword but for the case of its letters
/// is that keyword, and its literal is the word as it was written.
pub proof fn lemma_keywords_in_any_case(text: Seq<char>)
    requires
        all_ascii(text),
    ensures
        word_token(text).kind == keyword(ascii_lower_case(text)),
        word_token(text).literal == text,
{
}

/// A number that is written in base ten and read again is the same number.
pub proof fn lemma_numeral_reads_back(n: nat)
    ensures
        decimal(numeral(n)) == n,
    decreases n,
{
    let last = digit_char(n % 10);
    assert(numeral(n).last() == last);
    assert(is_digit(last) && digit_value(last) == n % 10);
    if n < 10 {
        assert(numeral(n).drop_last() =~= Seq::<char>::empty());
        assert(decimal(Seq::<char>::empty()) == 0);
    } else {
        lemma_numeral_reads_back(n / 10);
        assert(numeral(n).drop_last() =~= numeral(n / 10));
    }
}

} // verus!
