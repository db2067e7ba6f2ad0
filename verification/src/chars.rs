//! The character classes of the language.
//!
//! ASCII is classified here. A character beyond ASCII is handed to the
//! standard library's Unicode tables, whose answers are only named.

use vstd::prelude::*;

verus! {

/// The answer of `char::is_alphanumeric` for `c`.
pub uninterp spec fn unicode_alphanumeric(c: char) -> bool;

/// The answer of `char::is_whitespace` for `c`.
pub uninterp spec fn unicode_whitespace(c: char) -> bool;

/// The result of `str::to_lowercase` on the characters `s`.
pub uninterp spec fn unicode_lowercase(s: Seq<char>) -> Seq<char>;

/// Calls `char::is_alphanumeric`. Nothing is claimed of the answer but that it
/// depends on the character alone.
#[verifier::external_body]
fn std_is_alphanumeric(c: char) -> (b: bool)
    ensures
        b == unicode_alphanumeric(c),
{
    c.is_alphanumeric()
}

/// Calls `char::is_whitespace`. Nothing is claimed of the answer but that it
/// depends on the character alone.
#[verifier::external_body]
fn std_is_whitespace(c: char) -> (b: bool)
    ensures
        b == unicode_whitespace(c),
{
    c.is_whitespace()
}

/// Calls `str::to_lowercase`. Nothing is claimed of the result but that it
/// depends on the characters of `s` alone.
#[verifier::external_body]
pub(crate) fn std_to_lowercase(s: &str) -> (lowered: String)
    ensures
        lowered@ == unicode_lowercase(s@),
{
    s.to_lowercase()
}

/// The characters up to U+007F.
pub open spec fn is_ascii_char(c: char) -> bool {
    c <= '\u{7f}'
}

/// The letters `a` to `z` and `A` to `Z`.
pub open spec fn is_letter(c: char) -> bool {
    ('a' <= c && c <= 'z') || ('A' <= c && c <= 'Z')
}

/// The digits `0` to `9`.
pub open spec fn is_digit(c: char) -> bool {
    '0' <= c && c <= '9'
}

/// Letters and digits: the ASCII ones, and beyond ASCII whatever Unicode
/// counts as alphabetic or numeric.
pub open spec fn is_alphanumeric(c: char) -> bool {
    if is_ascii_char(c) {
        is_letter(c) || is_digit(c)
    } else {
        unicode_alphanumeric(c)
    }
}

/// Space, tab, line feed, vertical tab, form feed and carriage return, and
/// beyond ASCII whatever Unicode counts as white space.
pub open spec fn is_whitespace(c: char) -> bool {
    if is_ascii_char(c) {
        c == ' ' || ('\t' <= c && c <= '\r')
    } else {
        unicode_whitespace(c)
    }
}

/// The characters that may open an identifier or a keyword.
pub open spec fn is_word_start(c: char) -> bool {
    c == '_' || is_letter(c)
}

/// The characters that may continue an identifier or a keyword.
pub open spec fn is_word_part(c: char) -> bool {
    c == '_' || is_alphanumeric(c)
}

/// The characters that may continue a number: digits and the separator `_`.
pub open spec fn is_number_part(c: char) -> bool {
    c == '_' || is_digit(c)
}

/// The lower-case form of an ASCII letter; any other character is unchanged.
pub open spec fn ascii_lower(c: char) -> char {
    if 'A' <= c && c <= 'Z' {
        ((c as u32) + 32) as char
    } else {
        c
    }
}

/// Whether `c` is ASCII.
pub fn ascii(c: char) -> (b: bool)
    ensures
        b == is_ascii_char(c),
{
    c <= '\u{7f}'
}

/// Whether `c` is an ASCII letter.
pub fn letter(c: char) -> (b: bool)
    ensures
        b == is_letter(c),
{
    ('a' <= c && c <= 'z') || ('A' <= c && c <= 'Z')
}

/// Whether `c` is an ASCII digit.
pub fn digit(c: char) -> (b: bool)
    ensures
        b == is_digit(c),
{
    '0' <= c && c <= '9'
}

/// Whether `c` is a letter or a digit.
pub fn alphanumeric(c: char) -> (b: bool)
    ensures
        b == is_alphanumeric(c),
{
    if ascii(c) {
        letter(c) || digit(c)
    } else {
        std_is_alphanumeric(c)
    }
}

/// Whether `c` is white space.
pub fn whitespace(c: char) -> (b: bool)
    ensures
        b == is_whitespace(c),
{
    if ascii(c) {
        c == ' ' || ('\t' <= c && c <= '\r')
    } else {
        std_is_whitespace(c)
    }
}

/// Whether `c` may open a word.
pub fn word_start(c: char) -> (b: bool)
    ensures
        b == is_word_start(c),
{
    c == '_' || letter(c)
}

/// Whether `c` may continue a word.
pub fn word_part(c: char) -> (b: bool)
    ensures
        b == is_word_part(c),
{
    c == '_' || alphanumeric(c)
}

/// Whether `c` may continue a number.
pub fn number_part(c: char) -> (b: bool)
    ensures
        b == is_number_part(c),
{
    c == '_' || digit(c)
}

/// The value of a decimal digit.
pub open spec fn digit_value(c: char) -> nat
    recommends
        is_digit(c),
{
    ((c as u32) - ('0' as u32)) as nat
}

/// The value of a decimal digit.
pub fn value_of_digit(c: char) -> (v: u8)
    requires
        is_digit(c),
    ensures
        v == digit_value(c),
        v <= 9,
{
    ((c as u32) - ('0' as u32)) as u8
}

/// The lower-case form of an ASCII letter; any other character is unchanged.
pub fn lower(c: char) -> (l: char)
    ensures
        l == ascii_lower(c),
{
    if 'A' <= c && c <= 'Z' {
        (((c as u32) + 32) as u8) as char
    } else {
        c
    }
}

} // verus!
