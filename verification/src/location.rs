//! Source locations attached to diagnostics.
use vstd::prelude::*;

verus! {

/// A position in the source code: the character offset, the line and
/// column (both counted from 1) and the length of the marked span.
#[derive(Debug, Clone, Copy, PartialEq, Eq, Structural)]
pub struct Location {
    /// Character offset from the start of the source.
    pub position: usize,
    /// Line number, counted from 1.
    pub line: usize,
    /// Column number, counted from 1.
    pub column: usize,
    /// Length of the marked span.
    pub length: usize,
}

impl Location {
    /// Creates a location from its offset, line, column and length.
    pub fn new(position: usize, line: usize, column: usize, length: usize) -> (l: Location)
        ensures
            l == (Location { position, line, column, length }),
    {
        Location { position, line, column, length }
    }
}

} // verus!
