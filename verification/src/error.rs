//! The errors of a scan.

use crate::grammar::Failure;
use crate::location::Location;
use crate::text::{numeral, push_numeral};
use vstd::prelude::*;
use vstd::string::StringExecFns;

verus! {

/// Errors that can occur during lexing, each with the position at which the
/// lexer gave up.
#[derive(Debug)]
pub enum LexerError<'error> {
    /// An invalid character was encountered.
    InvalidCharacter(&'error Location, char),
    /// An invalid identifier was encountered. No rule of the language raises
    /// this yet.
    InvalidIdentifier(&'error Location, String),
    /// An invalid escape sequence was encountered.
    InvalidEscapeSequence(&'error Location, char),
    /// Unexpected end of input.
    UnexpectedEOF(&'error Location),
}

impl<'error> LexerError<'error> {
    /// The position that the error carries.
    pub open spec fn location(self) -> Location {
        match self {
            LexerError::InvalidCharacter(loc, _) => *loc,
            LexerError::InvalidIdentifier(loc, _) => *loc,
            LexerError::InvalidEscapeSequence(loc, _) => *loc,
            LexerError::UnexpectedEOF(loc) => *loc,
        }
    }

    /// The failure of the grammar that the error reports, if it reports one.
    pub open spec fn failure(self) -> Option<Failure> {
        match self {
            LexerError::InvalidCharacter(_, c) => Some(Failure::InvalidCharacter(c)),
            LexerError::InvalidIdentifier(_, _) => None,
            LexerError::InvalidEscapeSequence(_, c) => Some(Failure::InvalidEscapeSequence(c)),
            LexerError::UnexpectedEOF(_) => Some(Failure::UnexpectedEof),
        }
    }

    /// The text of the error: in square brackets the source's name, the line
    /// and the column, with colons between them, and behind them what went
    /// wrong.
    pub open spec fn message_text(self) -> Seq<char> {
        let loc = self.location();
        let place = seq!['['] + loc.source@ + seq![':'] + numeral(loc.line as nat) + seq![':']
            + numeral(loc.column as nat) + seq![']', ' '];
        place + match self {
            LexerError::InvalidCharacter(_, c) => "Invalid character '"@ + seq![c] + "'."@,
            LexerError::InvalidIdentifier(_, name) => "Invalid identifier '"@ + name@ + "'."@,
            LexerError::InvalidEscapeSequence(_, c) => "Invalid escape sequence '"@ + seq![c]
                + "'."@,
            LexerError::UnexpectedEOF(_) => "Unexpected end of file."@,
        }
    }

    /// The text of the error, for a reader.
    pub fn message(&self) -> (text: String)
        ensures
            text@ == self.message_text(),
    {
        let loc = match self {
            LexerError::InvalidCharacter(loc, _) => loc,
            LexerError::InvalidIdentifier(loc, _) => loc,
            LexerError::InvalidEscapeSequence(loc, _) => loc,
            LexerError::UnexpectedEOF(loc) => loc,
        };
        let mut text = String::new();
        text.push('[');
        text.append(loc.source.as_str());
        text.push(':');
        push_numeral(&mut text, loc.line);
        text.push(':');
        push_numeral(&mut text, loc.column);
        text.push(']');
        text.push(' ');
        let ghost place = text@;
        assert(place =~= seq!['['] + loc.source@ + seq![':'] + numeral(loc.line as nat) + seq![
            ':',
        ] + numeral(loc.column as nat) + seq![']', ' ']);
        match self {
            LexerError::InvalidCharacter(_, c) => {
                text.append("Invalid character '");
                text.push(*c);
                text.append("'.");
                assert(text@ =~= place + ("Invalid character '"@ + seq![*c] + "'."@));
            },
            LexerError::InvalidIdentifier(_, name) => {
                text.append("Invalid identifier '");
                text.append(name.as_str());
                text.append("'.");
                assert(text@ =~= place + ("Invalid identifier '"@ + name@ + "'."@));
            },
            LexerError::InvalidEscapeSequence(_, c) => {
                text.append("Invalid escape sequence '");
                text.push(*c);
                text.append("'.");
                assert(text@ =~= place + ("Invalid escape sequence '"@ + seq![*c] + "'."@));
            },
            LexerError::UnexpectedEOF(_) => {
                text.append("Unexpected end of file.");
            },
        }
        text
    }

    /// The error for a failure of the grammar, at the position `loc`.
    pub fn raise(failure: Failure, loc: &'error Location) -> (error: Self)
        ensures
            error.failure() == Some(failure),
            error.location() == *loc,
    {
        match failure {
            Failure::InvalidCharacter(c) => LexerError::InvalidCharacter(loc, c),
            Failure::InvalidEscapeSequence(c) => LexerError::InvalidEscapeSequence(loc, c),
            Failure::UnexpectedEof => LexerError::UnexpectedEOF(loc),
        }
    }
}

} // verus!
