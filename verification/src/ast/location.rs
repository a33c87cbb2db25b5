//! Places in the source text.

use vstd::prelude::*;

verus! {

/// A half-open range `[start, end)` of byte offsets into the source text.
#[derive(Debug, Clone, Copy, PartialEq, Eq, Structural)]
pub struct Location {
    pub start: usize,
    pub end: usize,
}

impl Location {
    /// A location is valid when it does not end before it starts.
    pub open spec fn is_valid(self) -> bool {
        self.start <= self.end
    }

    /// `inner` lies inside `self`.
    pub open spec fn contains(self, inner: Location) -> bool {
        self.start <= inner.start && inner.end <= self.end
    }

    /// `self` ends before `next` starts, or exactly where it starts.
    pub open spec fn precedes(self, next: Location) -> bool {
        self.end <= next.start
    }

    /// The smallest location that contains both `self` and `other`.
    pub open spec fn cover(self, other: Location) -> Location {
        Location {
            start: if self.start <= other.start { self.start } else { other.start },
            end: if self.end >= other.end { self.end } else { other.end },
        }
    }

    /// The smallest location that contains `first` and `rest[0..n]`.
    pub open spec fn cover_all(first: Location, rest: Seq<Location>, n: int) -> Location
        decreases n,
    {
        if n <= 0 {
            first
        } else {
            Self::cover_all(first, rest, n - 1).cover(rest[n - 1])
        }
    }

    /// The location from `start` to `end`.
    pub fn new(start: usize, end: usize) -> (location: Self)
        ensures
            location.start == start,
            location.end == end,
    {
        Location { start, end }
    }

    /// The offset of the first byte.
    pub fn start(&self) -> (start: usize)
        ensures
            start == self.start,
    {
        self.start
    }

    /// The offset behind the last byte.
    pub fn end(&self) -> (end: usize)
        ensures
            end == self.end,
    {
        self.end
    }

    /// The location of a composite node: from the least start to the greatest
    /// end among the locations of its parts.
    pub fn span_of(first: Location, rest: &Vec<Location>) -> (span: Location)
        ensures
            span == Self::cover_all(first, rest@, rest@.len() as int),
    {
        let mut span = first;
        let mut i: usize = 0;
        while i < rest.len()
            invariant
                i <= rest.len(),
                span == Self::cover_all(first, rest@, i as int),
            decreases rest.len() - i,
        {
            let next = rest[i];
            let start = if span.start <= next.start { span.start } else { next.start };
            let end = if span.end >= next.end { span.end } else { next.end };
            span = Location { start, end };
            i += 1;
        }
        span
    }
}

/// What has a place in the source text.
pub trait Locatable {
    /// The place of the value in the source text.
    spec fn place(&self) -> Location;

    fn location(&self) -> (location: &Location)
        ensures
            *location == self.place(),
    ;
}

/// The cover of a run of valid locations, each preceding the next, starts where
/// the first starts and ends where the last ends.
pub proof fn lemma_cover_of_ordered(first: Location, rest: Seq<Location>, n: int)
    requires
        0 <= n <= rest.len(),
        first.is_valid(),
        forall|i: int| 0 <= i < n ==> (#[trigger] rest[i]).is_valid(),
        n > 0 ==> first.precedes(rest[0]),
        forall|i: int| 0 < i < n ==> rest[i - 1].precedes(#[trigger] rest[i]),
    ensures
        Location::cover_all(first, rest, n) == (Location {
            start: first.start,
            end: if n == 0 { first.end } else { rest[n - 1].end },
        }),
    decreases n,
{
    if n > 0 {
        lemma_cover_of_ordered(first, rest, n - 1);
    }
}

} // verus!
