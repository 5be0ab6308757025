//! Byte-offset intervals that locate tokens and syntax nodes in the source.

use vstd::prelude::*;

verus! {

/// Half-open interval `[start, end)` of byte offsets into the source text.
#[derive(Clone, Copy, Debug, PartialEq, Eq, Structural)]
pub struct Span {
    pub start: usize,
    pub end: usize,
}

impl Span {
    /// A span is well formed when it does not end before it starts.
    pub open spec fn wf(self) -> bool {
        self.start <= self.end
    }

    /// The smallest span that contains both `self` and `other`.
    pub open spec fn cover(self, other: Span) -> Span {
        Span {
            start: if self.start <= other.start { self.start } else { other.start },
            end: if self.end >= other.end { self.end } else { other.end },
        }
    }

    /// The sentinel carried by synthetic constructs that have no place in the source.
    pub open spec fn unset() -> Span {
        Span { start: usize::MAX, end: usize::MAX }
    }

    /// The sentinel span as an executable value.
    pub fn new_unset() -> (span: Span)
        ensures
            span == Span::unset(),
            span.wf(),
    {
        Span { start: usize::MAX, end: usize::MAX }
    }

    pub fn new(start: usize, end: usize) -> (span: Span)
        requires
            start <= end,
        ensures
            span.start == start,
            span.end == end,
            span.wf(),
    {
        Span { start, end }
    }

    pub fn start(&self) -> (start: usize)
        ensures
            start == self.start,
    {
        self.start
    }

    pub fn end(&self) -> (end: usize)
        ensures
            end == self.end,
    {
        self.end
    }

    /// Merges two spans into their minimal cover.
    pub fn to(&self, other: Span) -> (merged: Span)
        ensures
            merged == self.cover(other),
    {
        let start = if self.start <= other.start { self.start } else { other.start };
        let end = if self.end >= other.end { self.end } else { other.end };
        Span { start, end }
    }

    /// The span as a range of offsets.
    pub fn range(&self) -> (range: core::ops::Range<usize>)
        ensures
            range.start == self.start,
            range.end == self.end,
    {
        self.start..self.end
    }

    pub fn is_unset(self) -> (unset: bool)
        ensures
            unset == (self == Span::unset()),
    {
        self.start == usize::MAX && self.end == usize::MAX
    }
}

/// The cover of two well-formed spans is well formed, contains both, and is
/// the least such span: any well-formed span containing both contains the cover.
pub proof fn lemma_cover_is_minimal(a: Span, b: Span, c: Span)
    requires
        a.wf(),
        b.wf(),
        c.start <= a.start && a.end <= c.end,
        c.start <= b.start && b.end <= c.end,
    ensures
        a.cover(b).wf(),
        a.cover(b).start <= a.start && a.end <= a.cover(b).end,
        a.cover(b).start <= b.start && b.end <= a.cover(b).end,
        c.start <= a.cover(b).start && a.cover(b).end <= c.end,
{
}

/// A value together with the span of source text it was read from.
#[derive(Clone, Debug, PartialEq, Eq)]
pub struct Spanned<T> {
    pub value: T,
    pub span: Span,
}

impl<T> Spanned<T> {
    pub fn new(value: T, span: Span) -> (spanned: Spanned<T>)
        ensures
            spanned.value == value,
            spanned.span == span,
    {
        Spanned { value, span }
    }

    pub fn span(&self) -> (span: Span)
        ensures
            span == self.span,
    {
        self.span
    }
}

impl<T: Clone> Spanned<T> {
    /// A copy of the carried value.
    pub fn value(&self) -> (value: T)
        ensures
            cloned(self.value, value),
    {
        self.value.clone()
    }
}

} // verus!
