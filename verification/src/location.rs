//! Line and column positions for human-readable diagnostics.

use crate::lexer::ascii;
use vstd::prelude::*;

verus! {

pub type Position = usize;

/// A position in the source text: byte offset, and one-based line and column.
#[derive(Clone, Copy, Debug, PartialEq, Eq, Structural)]
pub struct Location {
    pub offset: Position,
    pub line: Position,
    pub column: Position,
}

impl Location {
    /// The position of the first byte of any text.
    pub open spec fn origin() -> Location {
        Location { offset: 0, line: 1, column: 1 }
    }
}

impl Default for Location {
    fn default() -> (location: Location)
        ensures
            location == Location::origin(),
    {
        Location { offset: 0, line: 1, column: 1 }
    }
}

/// The line and the column of an offset in a text: lines are counted from
/// one and begin behind each line feed, columns are counted in bytes from
/// one.
pub open spec fn line_and_column(input: Seq<u8>, offset: int) -> (int, int)
    decreases offset,
{
    if offset <= 0 {
        (1, 1)
    } else {
        let before = line_and_column(input, offset - 1);
        if input[offset - 1] == ascii::LINE_FEED {
            (before.0 + 1, 1)
        } else {
            (before.0, before.1 + 1)
        }
    }
}

/// Lines and columns never exceed the offset by more than one.
pub proof fn lemma_line_and_column_bounds(input: Seq<u8>, offset: int)
    requires
        0 <= offset,
    ensures
        1 <= line_and_column(input, offset).0 <= offset + 1,
        1 <= line_and_column(input, offset).1 <= offset + 1,
    decreases offset,
{
    if offset > 0 {
        lemma_line_and_column_bounds(input, offset - 1);
    }
}

impl Location {
    /// The position of the byte at `offset` of `input`, for a diagnostic
    /// that speaks of lines and columns.
    pub fn of(input: &[u8], offset: usize) -> (location: Location)
        requires
            offset <= input@.len(),
            offset < usize::MAX,
        ensures
            location.offset == offset,
            location.line == line_and_column(input@, offset as int).0,
            location.column == line_and_column(input@, offset as int).1,
    {
        let mut line: usize = 1;
        let mut column: usize = 1;
        let mut i: usize = 0;
        while i < offset
            invariant
                i <= offset <= input@.len(),
                offset < usize::MAX,
                line == line_and_column(input@, i as int).0,
                column == line_and_column(input@, i as int).1,
            decreases offset - i,
        {
            proof {
                lemma_line_and_column_bounds(input@, i as int);
            }
            if input[i] == ascii::LINE_FEED {
                line = line + 1;
                column = 1;
            } else {
                column = column + 1;
            }
            i = i + 1;
        }
        Location { offset, line, column }
    }
}

} // verus!
