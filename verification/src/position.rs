//! Places in a buffer.

use vstd::prelude::*;

verus! {

/// A place in a buffer: a line, and an offset within the line counted in
/// grapheme clusters. Both start at zero.
#[derive(Debug, Default, PartialEq, Eq, Hash, Clone, Copy, Structural)]
pub struct Position {
    pub line: usize,
    pub offset: usize,
}

impl Position {
    pub fn new(line: usize, offset: usize) -> (position: Position)
        ensures
            position == (Position { line, offset }),
    {
        Position { line, offset }
    }
}

} // verus!
