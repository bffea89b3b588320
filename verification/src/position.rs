//! Source positions.
//!
//! Every term carries an optional span into the source it was parsed from.
//! A rewrite that produces a new outer node keeps the parent's span with
//! the `Inherited` flavour, so source ranges survive the transformations.

use vstd::prelude::*;

verus! {

/// An identifier of a source file, as handed out by the driver's file
/// database.
pub type FileId = u32;

/// A span of bytes inside one source file.
#[derive(Debug, Clone, Copy, PartialEq, Eq, Structural, Hash)]
pub struct RawSpan {
    pub src_id: FileId,
    pub start: u32,
    pub end: u32,
}

/// The position of a term: a span as parsed, a span inherited from the
/// parent node after a rewrite, or nothing.
#[derive(Debug, Clone, Copy, PartialEq, Eq, Structural, Hash)]
pub enum TermPos {
    Original(RawSpan),
    Inherited(RawSpan),
    NoPos,
}

impl TermPos {
    /// The same position, marked as inherited from a parent node.
    pub fn into_inherited(self) -> (res: TermPos)
        ensures
            res == self.spec_into_inherited(),
    {
        match self {
            TermPos::Original(span) => TermPos::Inherited(span),
            TermPos::Inherited(span) => TermPos::Inherited(span),
            TermPos::NoPos => TermPos::NoPos,
        }
    }

    /// What [`Self::into_inherited`] returns.
    pub open spec fn spec_into_inherited(self) -> TermPos {
        match self {
            TermPos::Original(span) => TermPos::Inherited(span),
            TermPos::Inherited(span) => TermPos::Inherited(span),
            TermPos::NoPos => TermPos::NoPos,
        }
    }
}

} // verus!
