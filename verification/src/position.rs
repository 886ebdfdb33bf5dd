//! Source positions: 1-based line and column numbers.

use vstd::prelude::*;

verus! {

/// A 1-based source location. A newline moves to the start of the next line;
/// every other character advances the column by one.
#[derive(Debug, Clone, Copy, PartialEq, Eq, Structural)]
pub struct Position {
    pub line: u32,
    pub column: u32,
}

impl Position {
    pub fn new(line: u32, column: u32) -> (r: Position)
        ensures
            r == (Position { line, column }),
    {
        Position { line, column }
    }
}

} // verus!
