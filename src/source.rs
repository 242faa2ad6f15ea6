//! Source locations attached to nodes, carried as plain data.
use vstd::prelude::*;

verus! {

/// Identifier of a source buffer.
#[derive(Debug, Clone, Copy, PartialEq, Eq, Hash, Structural)]
pub struct SourceId {
    pub id: u32,
}

/// A line/column position; line and column are 1-based, zero means invalid.
#[derive(Debug, Clone, Copy, PartialEq, Eq, Hash, Structural)]
pub struct SourceLoc {
    pub line: u32,
    pub col: u32,
}

/// A range of source text in one buffer.
#[derive(Debug, Clone, Copy, PartialEq, Eq, Hash, Structural)]
pub struct SourceRange {
    pub file: SourceId,
    pub start: SourceLoc,
    pub end: SourceLoc,
}

/// The id that names no buffer.
pub const INVALID_SOURCE_ID: u32 = 0xffff_ffff;

impl SourceId {
    pub open spec fn invalid_spec() -> SourceId {
        SourceId { id: INVALID_SOURCE_ID }
    }

    /// The id that names no buffer.
    pub fn invalid() -> (r: SourceId)
        ensures
            r == SourceId::invalid_spec(),
    {
        SourceId { id: INVALID_SOURCE_ID }
    }
}

impl SourceLoc {
    pub open spec fn invalid_spec() -> SourceLoc {
        SourceLoc { line: 0, col: 0 }
    }

    /// The location that denotes no position.
    pub fn invalid() -> (r: SourceLoc)
        ensures
            r == SourceLoc::invalid_spec(),
    {
        SourceLoc { line: 0, col: 0 }
    }

    /// Whether this location denotes a position.
    pub fn is_valid(&self) -> (r: bool)
        ensures
            r == (*self != SourceLoc::invalid_spec()),
    {
        self.line != 0 || self.col != 0
    }
}

impl SourceRange {
    pub open spec fn invalid_spec() -> SourceRange {
        SourceRange {
            file: SourceId::invalid_spec(),
            start: SourceLoc::invalid_spec(),
            end: SourceLoc::invalid_spec(),
        }
    }

    /// The range given to nodes that were synthesized rather than parsed.
    pub fn invalid() -> (r: SourceRange)
        ensures
            r == SourceRange::invalid_spec(),
    {
        SourceRange { file: SourceId::invalid(), start: SourceLoc::invalid(), end: SourceLoc::invalid() }
    }

    pub open spec fn collapsed_spec(self) -> SourceRange {
        SourceRange { file: self.file, start: self.start, end: self.start }
    }

    /// The zero-width range at the start of this one, in the same buffer.
    pub fn collapsed(&self) -> (r: SourceRange)
        ensures
            r == self.collapsed_spec(),
    {
        SourceRange { file: self.file, start: self.start, end: self.start }
    }
}

} // verus!
