use vstd::prelude::*;

verus! {

/// A closed interval `[min, max]` of cell indices along one axis.
#[derive(Debug, Clone, Copy, PartialEq, Eq, Structural)]
pub struct Range {
    pub min: u8,
    pub max: u8,
}

impl Range {
    /// The interval holds every index between its two ends.
    pub open spec fn holds(self, x: int) -> bool {
        self.min <= x <= self.max
    }

    /// Two closed intervals meet when neither lies wholly before the other.
    pub open spec fn meets(self, other: Range) -> bool {
        self.max >= other.min && self.min <= other.max
    }

    /// Builds the interval spanned by two ends, given in either order.
    pub fn new(min: u8, max: u8) -> (r: Range)
        ensures
            r.min <= r.max,
            r.min == if min <= max { min } else { max },
            r.max == if min <= max { max } else { min },
    {
        if min <= max {
            Range { min, max }
        } else {
            Range { min: max, max: min }
        }
    }

    /// Whether the interval holds `x`.
    pub fn within(&self, x: u8) -> (b: bool)
        ensures
            b == self.holds(x as int),
    {
        x >= self.min && x <= self.max
    }

    /// Whether the two intervals share an index.
    pub fn overlap(&self, other: Range) -> (b: bool)
        ensures
            b == self.meets(other),
    {
        self.max >= other.min && self.min <= other.max
    }
}

/// Two well-ordered intervals meet exactly when they share an index.
pub proof fn meeting_ranges_share_an_index(a: Range, b: Range)
    requires
        a.min <= a.max,
        b.min <= b.max,
    ensures
        a.meets(b) <==> exists|x: int| a.holds(x) && b.holds(x),
{
    if a.meets(b) {
        let x: int = if a.min >= b.min { a.min as int } else { b.min as int };
        assert(a.holds(x) && b.holds(x));
    }
}

} // verus!
