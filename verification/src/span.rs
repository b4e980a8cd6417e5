use crate::token::Token;
use std::ops::Range;
use vstd::prelude::*;

verus! {

/// A piece of the source: the bytes from `start` up to `end`. It holds no
/// text, and is cheap to copy.
#[derive(Debug, Clone, Copy, PartialEq, Eq, Structural)]
pub struct Span {
    pub start: usize,
    pub end: usize,
}

impl Span {
    /// The offsets are in order.
    pub open spec fn wf(self) -> bool {
        self.start <= self.end
    }

    /// The smallest span that holds both `self` and `other`.
    pub open spec fn spec_union(self, other: Span) -> Span {
        Span {
            start: if self.start <= other.start {
                self.start
            } else {
                other.start
            },
            end: if self.end >= other.end {
                self.end
            } else {
                other.end
            },
        }
    }

    /// The span from `start` up to `end`.
    pub fn new(start: usize, end: usize) -> (result: Span)
        requires
            start <= end,
        ensures
            result == (Span { start, end }),
    {
        Span { start, end }
    }

    pub fn as_range(self) -> (result: Range<usize>)
        ensures
            result.start == self.start,
            result.end == self.end,
    {
        self.start..self.end
    }

    pub fn start(&self) -> (result: usize)
        ensures
            result == self.start,
    {
        self.start
    }

    pub fn end(&self) -> (result: usize)
        ensures
            result == self.end,
    {
        self.end
    }

    /// The smallest span that holds both `self` and `other`.
    pub fn union(self, other: Span) -> (result: Span)
        ensures
            result == self.spec_union(other),
    {
        Span {
            start: if self.start <= other.start {
                self.start
            } else {
                other.start
            },
            end: if self.end >= other.end {
                self.end
            } else {
                other.end
            },
        }
    }
}

/// The union of two spans holds both, and every span that holds both holds
/// the union.
pub proof fn lemma_union_is_smallest(first: Span, second: Span, other: Span)
    requires
        first.wf(),
        second.wf(),
    ensures
        first.spec_union(second).wf(),
        first.spec_union(second).start <= first.start,
        first.spec_union(second).start <= second.start,
        first.spec_union(second).end >= first.end,
        first.spec_union(second).end >= second.end,
        other.start <= first.start && other.start <= second.start && other.end >= first.end
            && other.end >= second.end ==> other.start <= first.spec_union(second).start
            && first.spec_union(second).end <= other.end,
{
}

/// A token and the piece of the source that it is.
#[derive(Debug, Clone, Copy, PartialEq, Eq, Structural)]
pub struct SpannedToken(pub Span, pub Token);

/// A thing that was read from a piece of the source.
pub trait Spanned {
    /// The piece of the source that this was read from.
    spec fn spanned(&self) -> Span;

    /// The piece of the source that this was read from.
    fn span(&self) -> (result: Span)
        ensures
            result == self.spanned(),
    ;
}

impl Spanned for SpannedToken {
    open spec fn spanned(&self) -> Span {
        self.0
    }

    fn span(&self) -> (result: Span) {
        self.0
    }
}

impl SpannedToken {
    pub fn kind(&self) -> (result: Token)
        ensures
            result == self.1,
    {
        self.1
    }
}

} // verus!
