//! Language-server core for a native script checker: position translation,
//! diagnostic accumulation, document storage and request dispatch, with the
//! behaviour of each part stated in its contracts.

use vstd::prelude::*;

pub mod bridge;
pub mod diag;
pub mod dispatch;
pub mod store;
pub mod util;

verus! {

/// Protocol position: zero-based line and character offset.
#[derive(Clone, Copy, PartialEq, Eq, Structural, Debug)]
pub struct Position {
    pub line: u64,
    pub character: u64,
}

/// Protocol range: half-open span between two positions.
#[derive(Clone, Copy, PartialEq, Eq, Structural, Debug)]
pub struct Range {
    pub start: Position,
    pub end: Position,
}

impl Range {
    /// The default empty range at the start of the document.
    pub fn empty() -> (r: Range)
        ensures
            r == Range::empty_spec(),
    {
        Range {
            start: Position { line: 0, character: 0 },
            end: Position { line: 0, character: 0 },
        }
    }

    pub open spec fn empty_spec() -> Range {
        Range {
            start: Position { line: 0, character: 0 },
            end: Position { line: 0, character: 0 },
        }
    }

    /// A range is well formed when it spans a single line left to right.
    pub open spec fn well_formed(self) -> bool {
        self.start.line == self.end.line && self.start.character <= self.end.character
    }
}

} // verus!
