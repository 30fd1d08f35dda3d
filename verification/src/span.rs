use vstd::prelude::*;

verus! {

/// A byte range `[start, end)` in the source text.
#[derive(Debug, Clone, Copy, PartialEq, Eq, Structural)]
pub struct Span {
    pub start: usize,
    pub end: usize,
}

impl Span {
    /// The range is ordered: it does not end before it starts.
    pub open spec fn well_formed(self) -> bool {
        self.start <= self.end
    }

    /// Whether `position` lies on the range, both ends included.
    pub open spec fn touches(self, position: int) -> bool {
        self.start <= position <= self.end
    }

    pub fn new(start: usize, end: usize) -> (span: Span)
        ensures
            span.start == start,
            span.end == end,
    {
        Span { start, end }
    }

    /// The empty range at offset zero.
    pub fn empty() -> (span: Span)
        ensures
            span.start == 0,
            span.end == 0,
    {
        Span { start: 0, end: 0 }
    }

    /// Is the given byte offset on the range? A cursor directly behind the
    /// last byte still counts.
    pub fn contains(&self, position: usize) -> (inside: bool)
        ensures
            inside == self.touches(position as int),
    {
        position >= self.start && position <= self.end
    }

    /// Do the two ranges share an end point?
    pub fn overlaps(self, other: Span) -> (shared: bool)
        ensures
            shared == (self.touches(other.start as int) || self.touches(other.end as int)),
    {
        self.contains(other.start) || self.contains(other.end)
    }
}

} // verus!
