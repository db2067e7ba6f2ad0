//! The position tracker: line, column and offset within one source.

use vstd::prelude::*;

verus! {

/// A position in a source: where the next character to be read stands.
#[derive(Debug)]
pub struct Location {
    /// The line, counted from 1.
    pub line: usize,
    /// The column, counted from 0 at the start of each line.
    pub column: usize,
    /// The number of characters before this position.
    pub index: usize,
    /// The length of the line that was completed last.
    pub prev_line_length: usize,
    /// The number of characters read on the current line.
    pub current_line_length: usize,
    /// The name of the source: a file's name, or `string`.
    pub source: String,
}

impl Location {
    /// Whether the counters have room for a step over `current`.
    pub open spec fn can_advance(self, current: Option<char>) -> bool {
        match current {
            Some(c) => {
                &&& self.index < usize::MAX
                &&& c == '\n' ==> self.line < usize::MAX
                &&& c != '\n' ==> self.column < usize::MAX && self.current_line_length
                    < usize::MAX
            },
            None => true,
        }
    }

    /// The position one step after this one, where the step reads `current`.
    /// At the end of the source there is nothing to read and nothing changes.
    pub open spec fn advanced(self, current: Option<char>) -> Location {
        match current {
            Some(c) => if c == '\n' {
                Location {
                    line: (self.line + 1) as usize,
                    column: 0,
                    index: (self.index + 1) as usize,
                    prev_line_length: self.current_line_length,
                    current_line_length: 0,
                    source: self.source,
                }
            } else {
                Location {
                    line: self.line,
                    column: (self.column + 1) as usize,
                    index: (self.index + 1) as usize,
                    prev_line_length: self.prev_line_length,
                    current_line_length: (self.current_line_length + 1) as usize,
                    source: self.source,
                }
            },
            None => self,
        }
    }

    /// Whether this position can be left backwards over `current`.
    pub open spec fn can_retreat(self, current: Option<char>) -> bool {
        match current {
            Some(c) => {
                &&& self.index > 0
                &&& c == '\n' ==> self.line > 0
                &&& c != '\n' ==> self.column > 0 && self.current_line_length > 0
            },
            None => true,
        }
    }

    /// The position one step before this one, where the step that led here
    /// read `current`. Behind a line break stands the end of the completed
    /// line, whose length was kept; the length of the line before that one is
    /// not known any more and is given as 0.
    pub open spec fn retreated(self, current: Option<char>) -> Location {
        match current {
            Some(c) => if c == '\n' {
                Location {
                    line: (self.line - 1) as usize,
                    column: self.prev_line_length,
                    index: (self.index - 1) as usize,
                    prev_line_length: 0,
                    current_line_length: self.prev_line_length,
                    source: self.source,
                }
            } else {
                Location {
                    line: self.line,
                    column: (self.column - 1) as usize,
                    index: (self.index - 1) as usize,
                    prev_line_length: self.prev_line_length,
                    current_line_length: (self.current_line_length - 1) as usize,
                    source: self.source,
                }
            },
            None => self,
        }
    }

    /// The position reached from this one by reading the characters of `text`
    /// from `from` up to `to`, one step each.
    pub open spec fn walked(self, text: Seq<char>, from: int, to: int) -> Location
        decreases to - from,
    {
        if from < to {
            self.walked(text, from, to - 1).advanced(Some(text[to - 1]))
        } else {
            self
        }
    }

    /// A position at the start of a source, on the given line and column.
    pub fn new(line: usize, column: usize, source: String) -> (loc: Self)
        ensures
            loc == (Location {
                line,
                column,
                index: 0,
                prev_line_length: 0,
                current_line_length: 0,
                source,
            }),
    {
        Self { line, column, index: 0, prev_line_length: 0, current_line_length: 0, source }
    }

    /// Moves one character forward, over `current`.
    pub fn advance(&mut self, current: Option<char>)
        requires
            old(self).can_advance(current),
        ensures
            *final(self) == old(self).advanced(current),
    {
        if let Some(current) = current {
            if current == '\n' {
                self.line += 1;
                self.column = 0;
                self.prev_line_length = self.current_line_length;
                self.current_line_length = 0;
            } else {
                self.column += 1;
                self.current_line_length += 1;
            }
            self.index += 1;
        }
    }

    /// Moves one character back, over `current`: the inverse of `advance`.
    pub fn retreat(&mut self, current: Option<char>)
        requires
            old(self).can_retreat(current),
        ensures
            *final(self) == old(self).retreated(current),
    {
        if let Some(current) = current {
            if current == '\n' {
                self.line -= 1;
                self.column = self.prev_line_length;
                self.current_line_length = self.prev_line_length;
                self.prev_line_length = 0;
            } else {
                self.column -= 1;
                self.current_line_length -= 1;
            }
            self.index -= 1;
        }
    }

    /// The line and the column.
    pub fn current_location(&self) -> (position: (usize, usize))
        ensures
            position == (self.line, self.column),
    {
        (self.line, self.column)
    }
}

/// A step back over a character other than a line break undoes the step
/// forward over it.
pub proof fn lemma_retreat_undoes_advance(loc: Location, c: char)
    requires
        loc.can_advance(Some(c)),
        c != '\n',
    ensures
        loc.advanced(Some(c)).can_retreat(Some(c)),
        loc.advanced(Some(c)).retreated(Some(c)) == loc,
{
}

/// A step back over a line break restores line, offset and the length of the
/// line that the break completed, and puts the column at that line's end. The
/// length of the line before is forgotten.
pub proof fn lemma_retreat_over_line_break(loc: Location)
    requires
        loc.can_advance(Some('\n')),
    ensures
        loc.advanced(Some('\n')).can_retreat(Some('\n')),
        loc.advanced(Some('\n')).retreated(Some('\n')) == (Location {
            column: loc.current_line_length,
            prev_line_length: 0,
            ..loc
        }),
{
}

/// A walk moves the offset by the number of characters read, where the
/// counter has room for them, and keeps the name of the source.
pub proof fn lemma_walk_counts(loc: Location, text: Seq<char>, from: int, to: int)
    requires
        from <= to,
        loc.index + (to - from) <= usize::MAX,
    ensures
        loc.walked(text, from, to).index == loc.index + (to - from),
        loc.walked(text, from, to).source == loc.source,
    decreases to - from,
{
    if from < to {
        lemma_walk_counts(loc, text, from, to - 1);
    }
}

/// Two walks, one after the other, are one walk.
pub proof fn lemma_walk_joins(loc: Location, text: Seq<char>, from: int, mid: int, to: int)
    requires
        from <= mid <= to,
    ensures
        loc.walked(text, from, mid).walked(text, mid, to) == loc.walked(text, from, to),
    decreases to - mid,
{
    if mid < to {
        lemma_walk_joins(loc, text, from, mid, to - 1);
    }
}

} // verus!
