//! Diagnostics and their source positions.
//!
//! The checker reports each finding through a callback that carries a message
//! and a position descriptor with an explicit validity flag.  A position is
//! either fully valid or entirely absent: an invalid descriptor becomes `None`,
//! never a fabricated zero position.  Valid positions are one-based; the
//! protocol range derived from one is zero-based and half-open.

use vstd::prelude::*;

use crate::Position;
use crate::Range;
use crate::util::fragment_bounds;
use crate::util::fragment_range;
use crate::util::has_fragment;
use crate::util::no_match_before;
use crate::util::parse_range;

verus! {

#[derive(Clone, Copy, PartialEq, Eq, Structural, Debug)]
pub enum DiagnosticSeverity {
    Warning,
    Error,
}

/// A position descriptor as the checker's callback delivers it: the flag
/// says whether the other fields mean anything.
#[derive(Debug)]
pub struct RawDiagnosticPosition {
    /// Positive when the descriptor is valid.
    pub valid: i32,
    pub file: String,
    pub function: String,
    pub line: u64,
    pub column: u64,
    pub length: u64,
}

/// Position in a script where an error or warning occurred.
#[derive(Debug)]
pub struct DiagnosticPosition {
    pub file: String,
    /// Empty when the position lies outside any function.
    pub function: String,
    /// Starting at line 1.
    pub line: u64,
    /// Starting at column 1.
    pub column: u64,
    /// Length of the span in characters.
    pub length: u64,
}

/// A one-based line or column of zero, which the checker's contract rules out.
#[derive(Debug)]
pub struct InvalidPositionError {
    pub line: u64,
    pub column: u64,
}

impl DiagnosticPosition {
    /// Adopts a position descriptor from the checker, `None` for an invalid one.
    pub fn from_c4s(pos: &RawDiagnosticPosition) -> (r: Option<DiagnosticPosition>)
        ensures
            r is Some <==> pos.valid > 0,
            r matches Some(p) ==> {
                &&& p.file@ == pos.file@
                &&& p.function@ == pos.function@
                &&& p.line == pos.line
                &&& p.column == pos.column
                &&& p.length == pos.length
            },
    {
        if pos.valid > 0 {
            Some(
                DiagnosticPosition {
                    file: pos.file.clone(),
                    function: pos.function.clone(),
                    line: pos.line,
                    column: pos.column,
                    length: pos.length,
                },
            )
        } else {
            None
        }
    }

    /// The zero-based half-open range that a valid one-based position denotes.
    pub open spec fn to_range_spec(self) -> Range {
        Range {
            start: Position { line: (self.line - 1) as u64, character: (self.column - 1) as u64 },
            end: Position {
                line: (self.line - 1) as u64,
                character: (self.column - 1 + self.length) as u64,
            },
        }
    }

    /// Converts to a protocol range: start at `(line-1, column-1)`, end at
    /// `(line-1, column-1+length)`.  A line or column of zero breaks the
    /// checker's one-based contract and is an error, never clamped.
    pub fn to_range(&self) -> (r: Result<Range, InvalidPositionError>)
        requires
            self.column >= 1 ==> self.column - 1 + self.length <= u64::MAX,
        ensures
            r is Err <==> (self.line == 0 || self.column == 0),
            r matches Err(e) ==> e.line == self.line && e.column == self.column,
            r matches Ok(rg) ==> rg == self.to_range_spec(),
            r matches Ok(rg) ==> rg.well_formed(),
    {
        if self.line == 0 || self.column == 0 {
            Err(InvalidPositionError { line: self.line, column: self.column })
        } else {
            let line = self.line - 1;
            let character = self.column - 1;
            Ok(
                Range {
                    start: Position { line, character },
                    end: Position { line, character: character + self.length },
                },
            )
        }
    }
}

/// A single error or warning produced by checking source text.
#[derive(Debug)]
pub struct Diagnostic {
    pub severity: DiagnosticSeverity,
    pub message: String,
    pub position: Option<DiagnosticPosition>,
}

impl Diagnostic {
    /// The protocol range of a diagnostic: the structured position when one
    /// exists, otherwise the fallback range read out of the message text.
    /// Either path yields a well-formed range; only a structured position
    /// that breaks the one-based contract is an error.
    pub fn range(&self) -> (r: Result<Range, InvalidPositionError>)
        requires
            self.position matches Some(p) ==> (p.column >= 1 ==> p.column - 1 + p.length
                <= u64::MAX),
        ensures
            self.position matches Some(p) ==> {
                &&& r is Err <==> (p.line == 0 || p.column == 0)
                &&& (r matches Ok(rg) ==> rg == p.to_range_spec())
            },
            self.position is None ==> r is Ok,
            self.position is None && !has_fragment(self.message@) ==> r == Ok::<
                Range,
                InvalidPositionError,
            >(Range::empty_spec()),
            self.position is None ==> forall|i: int, j: int, k: int, l: int|
                #[trigger] fragment_bounds(self.message@, i, j, k, l) && no_match_before(
                    self.message@,
                    i,
                ) ==> r == Ok::<Range, InvalidPositionError>(
                    fragment_range(self.message@, i, j, k, l),
                ),
            r matches Ok(rg) ==> rg.well_formed(),
    {
        match &self.position {
            Some(p) => p.to_range(),
            None => Ok(parse_range(self.message.as_str())),
        }
    }
}

} // verus!
