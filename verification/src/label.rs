//! Blame labels.
//!
//! A label is an opaque token attached to a contract check. When a contract
//! blames, the label travels with the error and tells the user which check
//! failed, where, and on which side.

use vstd::prelude::*;
use crate::position::RawSpan;

verus! {

/// A blame label: a descriptive tag, the span of the guarded expression and
/// the polarity of the check (`true` for positive blame).
#[derive(Debug, PartialEq, Eq)]
pub struct Label {
    pub tag: String,
    pub span: RawSpan,
    pub polarity: bool,
}

impl Clone for Label {
    fn clone(&self) -> (res: Self)
        ensures
            res == *self,
    {
        Label { tag: self.tag.clone(), span: self.span, polarity: self.polarity }
    }
}

impl Label {
    /// A placeholder label, for tests and generated contracts.
    pub fn dummy() -> (res: Label)
        ensures
            res.tag@ == Seq::<char>::empty(),
            res.span == (RawSpan { src_id: 0, start: 0, end: 1 }),
            res.polarity,
    {
        Label {
            tag: String::new(),
            span: RawSpan { src_id: 0, start: 0, end: 1 },
            polarity: true,
        }
    }
}

} // verus!
