//! The lexer: a source, and a cursor in it.

use crate::grammar::{emit, lemma_scan_keeps, lexeme_at, numbers_fit, scan, word_token, Outcome};
use crate::location::lemma_walk_joins;
use crate::scanner::{compound_of, scan_lexeme, Scanned};
use crate::text::chars_of;
use crate::token::{views, TokenView};
use crate::words::{keyword_kind, lower_case_of};
use vstd::pervasive::unreached;
use vstd::prelude::*;

pub use crate::error::LexerError;
pub use crate::location::Location;
pub use crate::token::{Token, TokenKind};

verus! {

/// A lexer over one source.
#[derive(Debug)]
pub struct Lexer {
    /// The position of the cursor.
    pub loc: Location,
    source: Vec<char>,
}

/// A lexer as a mathematical value: the characters of its source, and the
/// position of its cursor.
pub struct LexerView {
    pub loc: Location,
    pub source: Seq<char>,
}

impl View for Lexer {
    type V = LexerView;

    closed spec fn view(&self) -> LexerView {
        LexerView { loc: self.loc, source: self.source@ }
    }
}

/// The source of a lexer is held in memory, so its length fits in `usize`.
pub proof fn lemma_source_is_held(lexer: Lexer)
    ensures
        lexer@.source.len() <= usize::MAX,
{
    assert(lexer.source@.len() == lexer.source.len());
}

/// Appends a token. An equals sign behind a colon or an arithmetic operator
/// replaces it by the compound of the two.
pub fn push_token(tokens: &mut Vec<Token>, token: Token)
    ensures
        views(final(tokens)@) == emit(views(old(tokens)@), token@),
{
    if let TokenKind::LetAssignment = token.kind {
        let n = tokens.len();
        if n > 0 {
            if let Some(merged) = compound_of(&tokens[n - 1].kind) {
                tokens.pop();
                tokens.push(merged);
                assert(views(tokens@) =~= emit(views(old(tokens)@), token@));
                return ;
            }
        }
    }
    tokens.push(token);
    assert(views(tokens@) =~= emit(views(old(tokens)@), token@));
}

impl Lexer {
    /// The character under the cursor, if the cursor stands within the source.
    pub open spec fn current(self) -> Option<char> {
        if self@.loc.index < self@.source.len() {
            Some(self@.source[self@.loc.index as int])
        } else {
            None
        }
    }

    /// The character before the cursor, if there is one.
    pub open spec fn previous(self) -> Option<char> {
        if 0 < self@.loc.index <= self@.source.len() {
            Some(self@.source[self@.loc.index - 1])
        } else {
            None
        }
    }

    /// What a scan from the cursor gives.
    pub open spec fn outcome(self) -> Outcome {
        scan(self@.source, self@.loc.index as int, Seq::empty())
    }

    /// Whether the counters of the position have room for the rest of the
    /// source.
    pub open spec fn ready(self) -> bool {
        let rest = self@.source.len() - self@.loc.index;
        rest > 0 ==> {
            &&& self@.loc.line + rest <= usize::MAX
            &&& self@.loc.column + rest <= usize::MAX
            &&& self@.loc.current_line_length + rest <= usize::MAX
        }
    }

    /// A lexer at the start of `contents`, which is known by the name `name`.
    pub fn new(name: String, contents: String) -> (lexer: Self)
        ensures
            lexer@.source == contents@,
            lexer@.loc == (Location {
                line: 1,
                column: 0,
                index: 0,
                prev_line_length: 0,
                current_line_length: 0,
                source: name,
            }),
    {
        Self { source: chars_of(contents.as_str()), loc: Location::new(1, 0, name) }
    }

    /// A lexer at the start of a source that is held in memory. Its name is
    /// `string`.
    pub fn lex_from_string(source: String) -> (lexer: Self)
        ensures
            lexer@.source == source@,
            lexer@.loc.line == 1,
            lexer@.loc.column == 0,
            lexer@.loc.index == 0,
            lexer@.loc.prev_line_length == 0,
            lexer@.loc.current_line_length == 0,
            lexer@.loc.source@ == "string"@,
    {
        Self::new("string".to_owned(), source)
    }

    /// Get the current character in the source.
    pub fn current_char(&self) -> (current: Option<char>)
        ensures
            current == self.current(),
    {
        if self.loc.index < self.source.len() {
            Some(self.source[self.loc.index])
        } else {
            None
        }
    }

    /// Move the lexer to the next character. At the end of the source the
    /// lexer stays.
    pub fn next(&mut self)
        requires
            old(self)@.loc.can_advance(old(self).current()),
        ensures
            final(self)@.source == old(self)@.source,
            final(self)@.loc == old(self)@.loc.advanced(old(self).current()),
    {
        let current = self.current_char();
        self.loc.advance(current);
    }

    /// Move the lexer to the previous character. Where no character of the
    /// source stands before the cursor the lexer stays.
    pub fn prev(&mut self)
        requires
            old(self)@.loc.can_retreat(old(self).previous()),
        ensures
            final(self)@.source == old(self)@.source,
            final(self)@.loc == old(self)@.loc.retreated(old(self).previous()),
    {
        let index = self.loc.index;
        let previous = if 0 < index && index <= self.source.len() {
            Some(self.source[index - 1])
        } else {
            None
        };
        self.loc.retreat(previous);
    }

    /// The token that a word is: one of the keywords `let`, `func`, `return`
    /// and `import`, whatever the case of its letters, or an identifier. The
    /// literal keeps the word as it was written.
    pub fn identify(buffer: &str) -> (token: Token)
        ensures
            token@ == word_token(buffer@),
    {
        let lowered = lower_case_of(buffer);
        Token::new(keyword_kind(&lowered), buffer.to_owned())
    }

    /// Moves the cursor forward to `end`.
    fn advance_to(&mut self, end: usize)
        requires
            old(self).loc.index <= end <= old(self).source@.len(),
            old(self).ready(),
        ensures
            final(self).source@ == old(self).source@,
            final(self).loc == old(self).loc.walked(
                old(self).source@,
                old(self).loc.index as int,
                end as int,
            ),
            final(self).loc.index == end,
            final(self).ready(),
    {
        let ghost start = self.loc.index;
        while self.loc.index < end
            invariant
                self.source@ == old(self).source@,
                start <= self.loc.index <= end <= self.source@.len(),
                self.loc == old(self).loc.walked(
                    self.source@,
                    start as int,
                    self.loc.index as int,
                ),
                self.ready(),
            decreases end - self.loc.index,
        {
            self.next();
        }
    }

    /// Whether `result`, with the lexer left as `after`, is what a scan from
    /// the cursor of `self` owes: the source is kept; the cursor has walked to
    /// where the scan stopped; and the result holds the tokens of the scan,
    /// or the error for its failure, with the position where the lexer was
    /// left.
    pub open spec fn lexed(
        self,
        after: Lexer,
        result: Result<Vec<Token>, LexerError<'_>>,
    ) -> bool {
        let outcome = self.outcome();
        &&& after@.source == self@.source
        &&& after@.loc == self@.loc.walked(self@.source, self@.loc.index as int, outcome.stop)
        &&& match outcome.failure {
            None => result matches Ok(tokens) && views(tokens@) == outcome.tokens,
            Some(failure) => result matches Err(error) && error.failure() == Some(failure)
                && error.location() == after@.loc,
        }
    }

    /// Whether the counters of the position have room for the rest of the
    /// source.
    pub fn is_ready(&self) -> (ready: bool)
        ensures
            ready == self.ready(),
    {
        let len = self.source.len();
        if self.loc.index >= len {
            return true;
        }
        let room = usize::MAX - (len - self.loc.index);
        self.loc.line <= room && self.loc.column <= room && self.loc.current_line_length <= room
    }

    /// Whether the value of every number that a scan from the cursor emits
    /// fits in `usize`. The cursor stays.
    pub fn fits(&self) -> (fits: bool)
        ensures
            fits == numbers_fit(self.outcome().tokens),
    {
        let mut i = self.loc.index;
        let ghost mut emitted = Seq::<TokenView>::empty();
        while i < self.source.len()
            invariant
                self.outcome() == scan(self.source@, i as int, emitted),
                numbers_fit(emitted),
            decreases self.source@.len() - i,
        {
            let (scanned, end) = scan_lexeme(self.source.as_slice(), i);
            match scanned {
                Scanned::Skip => {},
                Scanned::Token(token) => {
                    proof {
                        emitted = emit(emitted, token@);
                    }
                },
                Scanned::Failure(_) => {
                    return true;
                },
                Scanned::TooLarge => {
                    proof {
                        let token = lexeme_at(self.source@, i as int).piece->Word_0;
                        lemma_scan_keeps(
                            self.source@,
                            end as int,
                            emit(emitted, token),
                            emitted.len() as int,
                        );
                    }
                    return false;
                },
            }
            i = end;
        }
        true
    }

    /// Lex the source into a list of tokens, from the cursor to the end of
    /// the source or to the first error. The cursor is left where the scan
    /// stopped: at the end of the source, or behind what could not be read.
    ///
    /// The values of the numbers must fit in `usize`; `lex_checked` asks for
    /// nothing.
    pub fn lex(&mut self) -> (result: Result<Vec<Token>, LexerError<'_>>)
        requires
            old(self).ready(),
            numbers_fit(old(self).outcome().tokens),
        ensures
            old(self).lexed(*final(self), result),
    {
        let mut tokens: Vec<Token> = Vec::new();
        let ghost start = self.loc.index;
        assert(views(tokens@) =~= Seq::<TokenView>::empty());
        while self.loc.index < self.source.len()
            invariant
                self.source@ == old(self).source@,
                self.ready(),
                start == old(self).loc.index,
                start <= self.loc.index,
                self.loc == old(self).loc.walked(
                    self.source@,
                    start as int,
                    self.loc.index as int,
                ),
                old(self).outcome() == scan(
                    self.source@,
                    self.loc.index as int,
                    views(tokens@),
                ),
                numbers_fit(old(self).outcome().tokens),
            decreases self.source@.len() - self.loc.index,
        {
            let ghost at = self.loc.index as int;
            let ghost emitted = views(tokens@);
            let (scanned, end) = scan_lexeme(self.source.as_slice(), self.loc.index);
            self.advance_to(end);
            proof {
                lemma_walk_joins(old(self).loc, self.source@, start as int, at, end as int);
            }
            match scanned {
                Scanned::Skip => {},
                Scanned::Token(token) => {
                    push_token(&mut tokens, token);
                },
                Scanned::Failure(failure) => {
                    return Err(LexerError::raise(failure, &self.loc));
                },
                Scanned::TooLarge => {
                    proof {
                        let token = lexeme_at(self.source@, at).piece->Word_0;
                        lemma_scan_keeps(
                            self.source@,
                            end as int,
                            emit(emitted, token),
                            emitted.len() as int,
                        );
                    }
                    unreached()
                },
            }
        }
        Ok(tokens)
    }

    /// Lex the source as `lex` does, if the counters of the position have
    /// room for the rest of the source and the value of every number fits in
    /// `usize`. Otherwise there is no result, and the lexer is left as it was.
    pub fn lex_checked(&mut self) -> (result: Option<Result<Vec<Token>, LexerError<'_>>>)
        ensures
            result is Some <==> old(self).ready() && numbers_fit(old(self).outcome().tokens),
            match result {
                Some(lexed) => old(self).lexed(*final(self), lexed),
                None => *final(self) == *old(self),
            },
    {
        if self.is_ready() && self.fits() {
            Some(self.lex())
        } else {
            None
        }
    }
}

} // verus!
