//! Positions in source code given as lines and characters.
use crate::text::{push_char, push_decimal, spec_decimal};
use vstd::prelude::*;

verus! {

/// A position in source code: the line, counted from 1, and the number of
/// characters read on that line.
#[derive(Debug, Clone, Copy, PartialEq, Eq, Structural)]
pub struct Location {
    pub line: usize,
    pub char: usize,
}

/// The text of a location: `line:char`.
pub open spec fn spec_location_text(location: Location) -> Seq<char> {
    spec_decimal(location.line as nat) + seq![':'] + spec_decimal(location.char as nat)
}

impl Location {
    /// The start of source code: line 1, no character read.
    pub fn default() -> (location: Location)
        ensures
            location == (Location { line: 1, char: 0 }),
    {
        Location { line: 1, char: 0 }
    }

    pub fn line(&self) -> (line: usize)
        ensures
            line == self.line,
    {
        self.line
    }

    pub fn char(&self) -> (char: usize)
        ensures
            char == self.char,
    {
        self.char
    }

    /// Moves past one character on the line.
    pub fn advance_char(&mut self)
        requires
            old(self).char < usize::MAX,
        ensures
            final(self).char == old(self).char + 1,
            final(self).line == old(self).line,
    {
        self.char = self.char + 1;
    }

    /// Moves to the start of the next line.
    pub fn advance_line(&mut self)
        requires
            old(self).line < usize::MAX,
        ensures
            final(self).line == old(self).line + 1,
            final(self).char == 0,
    {
        self.line = self.line + 1;
        self.char = 0;
    }

    /// The text of this location: `line:char`.
    pub fn text(&self) -> (text: String)
        ensures
            text@ == spec_location_text(*self),
    {
        let mut text = String::new();
        push_decimal(&mut text, self.line);
        push_char(&mut text, ':');
        push_decimal(&mut text, self.char);
        assert(text@ =~= spec_location_text(*self));
        text
    }
}

} // verus!
