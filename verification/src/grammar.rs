//! The lexical grammar, stated on sequences of characters.
//!
//! `lexeme_at` says what stands at one position of a source and where it ends;
//! `scan` reads lexeme after lexeme, from a position to the end of the source
//! or to the first failure.

use crate::chars::{
    ascii_lower, digit_value, is_ascii_char, is_digit, is_number_part, is_whitespace, is_word_part,
    is_word_start, unicode_lowercase,
};
use crate::token::{KindView, TokenView};
use vstd::prelude::*;

verus! {

/// Why a scan stops before the end of the source.
#[derive(Clone, Copy, Debug, PartialEq, Eq, Structural)]
pub enum Failure {
    /// A character that begins nothing in the language.
    InvalidCharacter(char),
    /// A character that no escape sequence may have behind the backslash.
    InvalidEscapeSequence(char),
    /// The source ended inside a string or a block comment.
    UnexpectedEof,
}

/// What a lexeme contributes.
pub enum Piece {
    /// White space or a comment: nothing.
    Skip,
    /// A token.
    Word(TokenView),
    /// The end of the scan.
    Fail(Failure),
}

/// What stands at a position: its contribution, and the position behind it.
/// Behind a failure this is where the scan gives up.
pub struct Lexeme {
    pub piece: Piece,
    pub end: int,
}

/// The result of a scan.
pub struct Outcome {
    /// The tokens emitted, in order. After a failure: those emitted before it.
    pub tokens: Seq<TokenView>,
    /// The failure that ended the scan, if one did.
    pub failure: Option<Failure>,
    /// The position at which the scan stopped.
    pub stop: int,
}

/// Nothing, up to `end`.
pub open spec fn skip(end: int) -> Lexeme {
    Lexeme { piece: Piece::Skip, end }
}

/// A token of the given kind and literal, up to `end`.
pub open spec fn word(kind: KindView, literal: Seq<char>, end: int) -> Lexeme {
    Lexeme { piece: Piece::Word(TokenView { kind, literal }), end }
}

/// A failure, with the scan given up at `end`.
pub open spec fn fail(failure: Failure, end: int) -> Lexeme {
    Lexeme { piece: Piece::Fail(failure), end }
}

/// The kind of a punctuation mark that is a token by itself.
pub open spec fn punctuation(c: char) -> Option<KindView> {
    if c == ':' {
        Some(KindView::TypeAssignment)
    } else if c == '=' {
        Some(KindView::LetAssignment)
    } else if c == ';' {
        Some(KindView::Semicolon)
    } else if c == '(' {
        Some(KindView::OpenParen)
    } else if c == ')' {
        Some(KindView::CloseParen)
    } else if c == '{' {
        Some(KindView::OpenBrace)
    } else if c == '}' {
        Some(KindView::CloseBrace)
    } else if c == '[' {
        Some(KindView::OpenBracket)
    } else if c == ']' {
        Some(KindView::CloseBracket)
    } else if c == ',' {
        Some(KindView::Comma)
    } else {
        None
    }
}

/// The kind of an arithmetic operator.
pub open spec fn operator(c: char) -> Option<KindView> {
    if c == '+' {
        Some(KindView::Plus)
    } else if c == '-' {
        Some(KindView::Minus)
    } else if c == '*' {
        Some(KindView::Multiply)
    } else if c == '/' {
        Some(KindView::Divide)
    } else if c == '%' {
        Some(KindView::Modulo)
    } else {
        None
    }
}

/// The compound token that a token forms with an equals sign behind it: a
/// colon gives `:=`, an arithmetic operator its short assignment.
pub open spec fn compound(first: KindView) -> Option<TokenView> {
    match first {
        KindView::TypeAssignment => Some(
            TokenView { kind: KindView::UnTypedAssignment, literal: seq![':', '='] },
        ),
        KindView::Plus => Some(
            TokenView { kind: KindView::ShortIncrement, literal: seq!['+', '='] },
        ),
        KindView::Minus => Some(
            TokenView { kind: KindView::ShortDecrement, literal: seq!['-', '='] },
        ),
        KindView::Multiply => Some(
            TokenView { kind: KindView::ShortMultiply, literal: seq!['*', '='] },
        ),
        KindView::Divide => Some(
            TokenView { kind: KindView::ShortDivide, literal: seq!['/', '='] },
        ),
        KindView::Modulo => Some(
            TokenView { kind: KindView::ShortModulo, literal: seq!['%', '='] },
        ),
        _ => None,
    }
}

/// What an escape sequence stands for.
#[derive(Clone, Copy, Debug, PartialEq, Eq, Structural)]
pub enum Escape {
    /// One character.
    Char(char),
    /// Nothing: a backslash before a line break continues the line.
    Nothing,
    /// No escape sequence.
    Invalid,
}

/// The meaning of the character behind a backslash.
pub open spec fn escape(c: char) -> Escape {
    if c == 'n' {
        Escape::Char('\n')
    } else if c == 't' {
        Escape::Char('\t')
    } else if c == 'r' {
        Escape::Char('\r')
    } else if c == '0' {
        Escape::Char('\0')
    } else if c == '"' || c == '\'' || c == '\\' {
        Escape::Char(c)
    } else if c == '\n' {
        Escape::Nothing
    } else {
        Escape::Invalid
    }
}

/// The rest of a string from position `i`, where `text` is what the string
/// holds so far and `quote` the character that opened it. The string ends at
/// the next `quote` that no backslash escapes; the other quote character is
/// content.
pub open spec fn string_rest(s: Seq<char>, i: int, quote: char, text: Seq<char>) -> Lexeme
    decreases s.len() - i,
{
    if i < 0 || i >= s.len() {
        fail(Failure::UnexpectedEof, s.len() as int)
    } else if s[i] == quote {
        word(KindView::String, text, i + 1)
    } else if s[i] == '\\' {
        if i + 1 >= s.len() {
            fail(Failure::UnexpectedEof, s.len() as int)
        } else {
            match escape(s[i + 1]) {
                Escape::Char(c) => string_rest(s, i + 2, quote, text.push(c)),
                Escape::Nothing => string_rest(s, i + 2, quote, text),
                Escape::Invalid => fail(Failure::InvalidEscapeSequence(s[i + 1]), i + 2),
            }
        }
    } else {
        string_rest(s, i + 1, quote, text.push(s[i]))
    }
}

/// The end of the longest run of word characters from `i`.
pub open spec fn word_end(s: Seq<char>, i: int) -> int
    decreases s.len() - i,
{
    if 0 <= i < s.len() && is_word_part(s[i]) {
        word_end(s, i + 1)
    } else {
        i
    }
}

/// The end of the longest run of digits and separators from `i`.
pub open spec fn number_end(s: Seq<char>, i: int) -> int
    decreases s.len() - i,
{
    if 0 <= i < s.len() && is_number_part(s[i]) {
        number_end(s, i + 1)
    } else {
        i
    }
}

/// The position of the next line break from `i`, or the end of the source.
pub open spec fn line_end(s: Seq<char>, i: int) -> int
    decreases s.len() - i,
{
    if 0 <= i < s.len() && s[i] != '\n' {
        line_end(s, i + 1)
    } else {
        i
    }
}

/// The position behind the first `*/` that begins at `i` or later.
pub open spec fn comment_close(s: Seq<char>, i: int) -> Option<int>
    decreases s.len() - i,
{
    if i < 0 || i + 1 >= s.len() {
        None
    } else if s[i] == '*' && s[i + 1] == '/' {
        Some(i + 2)
    } else {
        comment_close(s, i + 1)
    }
}

/// The value of a number's text: its digits read in base ten, the separators
/// passed over.
pub open spec fn decimal(text: Seq<char>) -> nat
    decreases text.len(),
{
    if text.len() == 0 {
        0
    } else if is_digit(text.last()) {
        10 * decimal(text.drop_last()) + digit_value(text.last())
    } else {
        decimal(text.drop_last())
    }
}

/// Whether every character of the text is ASCII.
pub open spec fn all_ascii(text: Seq<char>) -> bool {
    forall|k: int| 0 <= k < text.len() ==> is_ascii_char(#[trigger] text[k])
}

/// The text with each of its ASCII capitals replaced by the small letter.
pub open spec fn ascii_lower_case(text: Seq<char>) -> Seq<char> {
    text.map_values(|c: char| ascii_lower(c))
}

/// The text in lower case: letter by letter where it is ASCII, and as the
/// standard library gives it where it is not.
pub open spec fn lower_case(text: Seq<char>) -> Seq<char> {
    if all_ascii(text) {
        ascii_lower_case(text)
    } else {
        unicode_lowercase(text)
    }
}

/// The kind that a text in lower case stands for: one of the four keywords,
/// or an identifier.
pub open spec fn keyword(lowered: Seq<char>) -> KindView {
    if lowered == seq!['l', 'e', 't'] {
        KindView::Assign
    } else if lowered == seq!['f', 'u', 'n', 'c'] {
        KindView::Function
    } else if lowered == seq!['r', 'e', 't', 'u', 'r', 'n'] {
        KindView::Return
    } else if lowered == seq!['i', 'm', 'p', 'o', 'r', 't'] {
        KindView::Import
    } else {
        KindView::Identifier
    }
}

/// The token that a word is: keywords are recognised whatever their case, and
/// the literal is the word as it was written.
pub open spec fn word_token(text: Seq<char>) -> TokenView {
    TokenView { kind: keyword(lower_case(text)), literal: text }
}

/// What stands at position `i` of the source `s`.
pub open spec fn lexeme_at(s: Seq<char>, i: int) -> Lexeme
    recommends
        0 <= i < s.len(),
{
    let c = s[i];
    let follows = |next: char| i + 1 < s.len() && s[i + 1] == next;
    if punctuation(c) is Some {
        word(punctuation(c)->0, seq![c], i + 1)
    } else if c == '\'' || c == '"' {
        string_rest(s, i + 1, c, Seq::empty())
    } else if is_word_start(c) {
        let end = word_end(s, i + 1);
        Lexeme { piece: Piece::Word(word_token(s.subrange(i, end))), end }
    } else if is_digit(c) {
        let end = number_end(s, i + 1);
        let text = s.subrange(i, end);
        word(KindView::Number(decimal(text)), text, end)
    } else if c == '/' && follows('/') {
        skip(line_end(s, i + 2))
    } else if c == '/' && follows('*') {
        match comment_close(s, i + 2) {
            Some(end) => skip(end),
            None => fail(Failure::UnexpectedEof, s.len() as int),
        }
    } else if operator(c) is Some {
        if follows('=') {
            let short = compound(operator(c)->0)->0;
            Lexeme { piece: Piece::Word(short), end: i + 2 }
        } else {
            word(operator(c)->0, seq![c], i + 1)
        }
    } else if is_whitespace(c) {
        skip(i + 1)
    } else {
        fail(Failure::InvalidCharacter(c), i + 1)
    }
}

/// The tokens after `token` has been emitted behind `emitted`. An equals sign
/// behind a colon or an arithmetic operator replaces it by the compound of
/// the two, whatever white space and comments stood between them.
pub open spec fn emit(emitted: Seq<TokenView>, token: TokenView) -> Seq<TokenView> {
    if token.kind is LetAssignment && emitted.len() > 0 && compound(emitted.last().kind) is Some {
        emitted.drop_last().push(compound(emitted.last().kind)->0)
    } else {
        emitted.push(token)
    }
}

/// The scan of `s` from position `i`, where `emitted` holds the tokens
/// emitted so far.
pub open spec fn scan(s: Seq<char>, i: int, emitted: Seq<TokenView>) -> Outcome
    decreases s.len() - i,
    via scan_decreases
{
    if 0 <= i < s.len() {
        let lexeme = lexeme_at(s, i);
        match lexeme.piece {
            Piece::Skip => scan(s, lexeme.end, emitted),
            Piece::Word(token) => scan(s, lexeme.end, emit(emitted, token)),
            Piece::Fail(failure) => Outcome {
                tokens: emitted,
                failure: Some(failure),
                stop: lexeme.end,
            },
        }
    } else {
        Outcome { tokens: emitted, failure: None, stop: i }
    }
}

/// Whether the value of every number among the tokens fits in `usize`.
pub open spec fn numbers_fit(tokens: Seq<TokenView>) -> bool {
    forall|k: int|
        0 <= k < tokens.len() ==> (#[trigger] tokens[k].kind matches KindView::Number(value)
            ==> value <= usize::MAX)
}

/// The literals of the tokens, one behind the other.
pub open spec fn spelling(tokens: Seq<TokenView>) -> Seq<char>
    decreases tokens.len(),
{
    if tokens.len() == 0 {
        Seq::empty()
    } else {
        spelling(tokens.drop_last()) + tokens.last().literal
    }
}

/// The source from position `i` without its white space and comments: the
/// text of the tokens alone, up to the end of the source or to a failure.
pub open spec fn significant(s: Seq<char>, i: int) -> Seq<char>
    decreases s.len() - i,
    via significant_decreases
{
    if 0 <= i < s.len() {
        let lexeme = lexeme_at(s, i);
        match lexeme.piece {
            Piece::Skip => significant(s, lexeme.end),
            Piece::Word(_) => s.subrange(i, lexeme.end) + significant(s, lexeme.end),
            Piece::Fail(_) => Seq::empty(),
        }
    } else {
        Seq::empty()
    }
}

#[via_fn]
proof fn significant_decreases(s: Seq<char>, i: int) {
    if 0 <= i < s.len() {
        lemma_lexeme_bounds(s, i);
    }
}

#[via_fn]
proof fn scan_decreases(s: Seq<char>, i: int, emitted: Seq<TokenView>) {
    if 0 <= i < s.len() {
        lemma_lexeme_bounds(s, i);
    }
}

proof fn lemma_string_rest_bounds(s: Seq<char>, i: int, quote: char, text: Seq<char>)
    requires
        0 <= i <= s.len(),
    ensures
        i <= string_rest(s, i, quote, text).end <= s.len(),
        string_rest(s, i, quote, text).piece is Word ==> i < string_rest(s, i, quote, text).end,
    decreases s.len() - i,
{
    if i < s.len() && s[i] != quote {
        if s[i] == '\\' {
            if i + 1 < s.len() {
                match escape(s[i + 1]) {
                    Escape::Char(c) => {
                        lemma_string_rest_bounds(s, i + 2, quote, text.push(c));
                    },
                    Escape::Nothing => {
                        lemma_string_rest_bounds(s, i + 2, quote, text);
                    },
                    Escape::Invalid => {},
                }
            }
        } else {
            lemma_string_rest_bounds(s, i + 1, quote, text.push(s[i]));
        }
    }
}

proof fn lemma_word_end_bounds(s: Seq<char>, i: int)
    requires
        0 <= i <= s.len(),
    ensures
        i <= word_end(s, i) <= s.len(),
    decreases s.len() - i,
{
    if i < s.len() && is_word_part(s[i]) {
        lemma_word_end_bounds(s, i + 1);
    }
}

proof fn lemma_number_end_bounds(s: Seq<char>, i: int)
    requires
        0 <= i <= s.len(),
    ensures
        i <= number_end(s, i) <= s.len(),
    decreases s.len() - i,
{
    if i < s.len() && is_number_part(s[i]) {
        lemma_number_end_bounds(s, i + 1);
    }
}

proof fn lemma_line_end_bounds(s: Seq<char>, i: int)
    requires
        0 <= i <= s.len(),
    ensures
        i <= line_end(s, i) <= s.len(),
    decreases s.len() - i,
{
    if i < s.len() && s[i] != '\n' {
        lemma_line_end_bounds(s, i + 1);
    }
}

proof fn lemma_comment_close_bounds(s: Seq<char>, i: int)
    requires
        0 <= i <= s.len(),
    ensures
        comment_close(s, i) matches Some(end) ==> i + 2 <= end <= s.len(),
    decreases s.len() - i,
{
    if i + 1 < s.len() && !(s[i] == '*' && s[i + 1] == '/') {
        lemma_comment_close_bounds(s, i + 1);
    }
}

/// Every lexeme ends behind the position at which it begins, and within the
/// source.
pub proof fn lemma_lexeme_bounds(s: Seq<char>, i: int)
    requires
        0 <= i < s.len(),
    ensures
        i < lexeme_at(s, i).end <= s.len(),
{
    let c = s[i];
    lemma_string_rest_bounds(s, i + 1, c, Seq::empty());
    lemma_word_end_bounds(s, i + 1);
    lemma_number_end_bounds(s, i + 1);
    if i + 1 < s.len() {
        lemma_line_end_bounds(s, i + 2);
        lemma_comment_close_bounds(s, i + 2);
    }
}

/// A scan keeps the tokens that were emitted before it. Only the last of
/// them can still change, where an equals sign may follow it.
pub proof fn lemma_scan_keeps(s: Seq<char>, i: int, emitted: Seq<TokenView>, k: int)
    requires
        0 <= k < emitted.len(),
        k < emitted.len() - 1 || compound(emitted[k].kind) is None,
    ensures
        k < scan(s, i, emitted).tokens.len(),
        scan(s, i, emitted).tokens[k] == emitted[k],
    decreases s.len() - i,
{
    if 0 <= i < s.len() {
        lemma_lexeme_bounds(s, i);
        let lexeme = lexeme_at(s, i);
        match lexeme.piece {
            Piece::Skip => {
                lemma_scan_keeps(s, lexeme.end, emitted, k);
            },
            Piece::Word(token) => {
                lemma_scan_keeps(s, lexeme.end, emit(emitted, token), k);
            },
            Piece::Fail(_) => {},
        }
    }
}

} // verus!
