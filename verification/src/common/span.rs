use vstd::prelude::*;

verus! {

/// A byte range `start..end` inside the source with id `source_id`.
#[derive(Debug, Clone, Copy, PartialEq, Eq, Structural)]
pub struct Span {
    pub start: usize,
    pub end: usize,
    pub source_id: usize,
}

impl Span {
    pub open spec fn spec_concat(self, other: Span) -> Span {
        Span { start: self.start, end: other.end, source_id: self.source_id }
    }

    /// The span that starts where `self` starts and ends where `other` ends.
    pub fn concat(&self, other: &Span) -> (r: Span)
        ensures
            r == self.spec_concat(*other),
    {
        Span { start: self.start, end: other.end, source_id: self.source_id }
    }

    pub open spec fn spec_splat_to_end(self) -> Span {
        Span { start: self.end, end: self.end, source_id: self.source_id }
    }

    /// The empty span sitting at the end of `self`.
    pub fn splat_to_end(&self) -> (r: Span)
        ensures
            r == self.spec_splat_to_end(),
    {
        Span { start: self.end, end: self.end, source_id: self.source_id }
    }

    pub open spec fn spec_empty(source_id: usize) -> Span {
        Span { start: 0, end: 0, source_id }
    }

    /// The empty span at the very beginning of a source.
    pub fn empty(source_id: usize) -> (r: Span)
        ensures
            r == Span::spec_empty(source_id),
    {
        Span { start: 0, end: 0, source_id }
    }
}

} // verus!
