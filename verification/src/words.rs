//! Keywords: a word in lower case, and the kind it stands for.

use crate::chars::{ascii, lower, std_to_lowercase};
use crate::grammar::{all_ascii, ascii_lower_case, keyword, lower_case};
use crate::text::chars_of;
use crate::token::TokenKind;
use vstd::prelude::*;

verus! {

/// The characters in lower case, if all of them are ASCII.
fn ascii_lowered(chars: &Vec<char>) -> (lowered: Option<Vec<char>>)
    ensures
        match lowered {
            Some(l) => all_ascii(chars@) && l@ == ascii_lower_case(chars@),
            None => !all_ascii(chars@),
        },
{
    let mut lowered: Vec<char> = Vec::new();
    let mut k: usize = 0;
    while k < chars.len()
        invariant
            k <= chars.len(),
            all_ascii(chars@.take(k as int)),
            lowered@ == ascii_lower_case(chars@.take(k as int)),
        decreases chars.len() - k,
    {
        let c = chars[k];
        if !ascii(c) {
            return None;
        }
        lowered.push(lower(c));
        k += 1;
        assert(lowered@ =~= ascii_lower_case(chars@.take(k as int)));
    }
    assert(chars@.take(k as int) =~= chars@);
    Some(lowered)
}

/// The word in lower case.
pub fn lower_case_of(word: &str) -> (lowered: Vec<char>)
    ensures
        lowered@ == lower_case(word@),
{
    let chars = chars_of(word);
    match ascii_lowered(&chars) {
        Some(lowered) => lowered,
        None => {
            let lowered = std_to_lowercase(word);
            chars_of(lowered.as_str())
        },
    }
}

/// The kind that a word in lower case stands for.
pub fn keyword_kind(lowered: &Vec<char>) -> (kind: TokenKind)
    ensures
        kind@ == keyword(lowered@),
{
    let n = lowered.len();
    if n == 3 && lowered[0] == 'l' && lowered[1] == 'e' && lowered[2] == 't' {
        assert(lowered@ =~= seq!['l', 'e', 't']);
        TokenKind::Assign
    } else if n == 4 && lowered[0] == 'f' && lowered[1] == 'u' && lowered[2] == 'n' && lowered[3]
        == 'c' {
        assert(lowered@ =~= seq!['f', 'u', 'n', 'c']);
        TokenKind::Function
    } else if n == 6 && lowered[0] == 'r' && lowered[1] == 'e' && lowered[2] == 't' && lowered[3]
        == 'u' && lowered[4] == 'r' && lowered[5] == 'n' {
        assert(lowered@ =~= seq!['r', 'e', 't', 'u', 'r', 'n']);
        TokenKind::Return
    } else if n == 6 && lowered[0] == 'i' && lowered[1] == 'm' && lowered[2] == 'p' && lowered[3]
        == 'o' && lowered[4] == 'r' && lowered[5] == 't' {
        assert(lowered@ =~= seq!['i', 'm', 'p', 'o', 'r', 't']);
        TokenKind::Import
    } else {
        TokenKind::Identifier
    }
}

} // verus!
