use vstd::prelude::*;

verus! {

/// A closed interval `[start, end]` of points, the key type of the range maps.
#[derive(Clone, Copy, Debug, PartialEq, Eq, Structural)]
pub struct KeyRange {
    /// The first point of the interval, inclusive.
    pub start: u64,
    /// The last point of the interval, inclusive.
    pub end: u64,
}

impl KeyRange {
    /// An interval is valid when it does not end before it starts.
    pub open spec fn valid(self) -> bool {
        self.start <= self.end
    }

    /// Whether the point lies in the interval.
    pub open spec fn has(self, p: int) -> bool {
        self.start <= p <= self.end
    }

    /// Whether two intervals share a point.
    pub open spec fn meets(self, other: KeyRange) -> bool {
        self.start <= other.end && other.start <= self.end
    }

    /// Creates the interval `[start, end]`; both ends inclusive.
    pub fn ii(start: u64, end: u64) -> (r: KeyRange)
        requires
            start <= end,
        ensures
            r == (KeyRange { start, end }),
    {
        KeyRange { start, end }
    }

    /// Creates the interval `[start, end)`, that is `[start, end - 1]`.
    /// Panics (here: excluded) when the result would be empty.
    pub fn ie(start: u64, end: u64) -> (r: KeyRange)
        requires
            start < end,
        ensures
            r == (KeyRange { start, end: (end - 1) as u64 }),
            r.valid(),
    {
        KeyRange { start, end: end - 1 }
    }

    /// `start <= end`.
    pub fn is_valid(&self) -> (r: bool)
        ensures
            r == self.valid(),
    {
        self.start <= self.end
    }

    /// Whether `point` lies in the interval.
    pub fn contains(&self, point: u64) -> (r: bool)
        ensures
            r == self.has(point as int),
    {
        self.start <= point && point <= self.end
    }
}

/// An interval holds no point when it ends before it starts; every valid interval, a
/// single point too, holds at least one.
pub open spec fn spec_is_empty_range(r: KeyRange) -> bool {
    r.start > r.end
}

/// Whether the interval holds no point.
pub fn is_empty_range(range: &KeyRange) -> (r: bool)
    ensures
        r == spec_is_empty_range(*range),
{
    range.start > range.end
}

} // verus!
