//! Closed intervals of fixed-point scalars.

use vstd::prelude::*;

use crate::math::abs;

verus! {

/// Largest magnitude a universe-interval bound may have; chosen so that the
/// size of any interval within it still fits a machine scalar.
pub const IMAX: i64 = 0x2000_0000_0000_0000;

/// Represents abstract interval.
#[derive(Copy, Clone, Debug, PartialEq, Eq, Structural)]
pub struct Interval {
    /// Lower range bound for interval.
    pub min: i64,
    /// Upper range bound for interval.
    pub max: i64,
}

impl Interval {
    /// The interval [`Interval::new`] builds: the two bounds, ordered.
    pub open spec fn new_spec(min: i64, max: i64) -> Interval {
        Interval {
            min: if min <= max { min } else { max },
            max: if min <= max { max } else { min },
        }
    }

    /// The bounds are ordered and small enough that every difference this
    /// module forms fits a machine scalar.
    pub open spec fn wf(self) -> bool {
        -0x2000_0000_0000_0000 <= self.min <= self.max <= 0x2000_0000_0000_0000
    }

    /// Creates new interval, ordering the two bounds.
    pub fn new(min: i64, max: i64) -> (r: Interval)
        ensures
            r.min == if min <= max { min } else { max },
            r.max == if min <= max { max } else { min },
    {
        Interval {
            min: if min > max { max } else { min },
            max: if min > max { min } else { max },
        }
    }

    /// Checks if passed `point` is inside given Interval, borders included.
    pub fn contains(&self, point: i64) -> (r: bool)
        ensures
            r == (self.min <= point && point <= self.max),
    {
        self.min <= point && point <= self.max
    }

    /// Checks if passed `point` is strictly inside given Interval.
    pub fn surrounds(&self, point: i64) -> (r: bool)
        ensures
            r == (self.min < point && point < self.max),
    {
        self.min < point && point < self.max
    }

    /// Returns size of a given Interval.
    pub fn size(&self) -> (r: i64)
        requires
            self.wf(),
        ensures
            r == self.max - self.min,
    {
        self.max - self.min
    }

    /// Returns a new Interval whose size is grown to exactly `delta`,
    /// splitting the growth over both bounds; the lower bound takes the
    /// larger half when the growth is odd.
    pub fn grow_to(&self, delta: i64) -> (r: Interval)
        requires
            self.wf(),
            0 <= delta <= 0x1000_0000_0000_0000,
            self.max - self.min <= delta,
        ensures
            r.max - r.min == delta,
            r.min <= self.min,
            r.max >= self.max,
            self.min - r.min == delta - (self.max - self.min)
                - (delta - (self.max - self.min)) / 2,
            r.max - self.max == (delta - (self.max - self.min)) / 2,
    {
        let growth = delta - (self.max - self.min);
        let upper = growth / 2;
        Interval { min: self.min - (growth - upper), max: self.max + upper }
    }

    /// Returns new Interval shifted by an offset.
    pub fn shift(&self, offset: i64) -> (r: Interval)
        requires
            self.wf(),
            abs(offset as int) <= 0x1000_0000_0000_0000,
        ensures
            r.min == self.min + offset,
            r.max == self.max + offset,
    {
        Interval { min: self.min + offset, max: self.max + offset }
    }

    /// Returns the Interval that contains each representable point.
    pub fn universe() -> (r: Interval)
        ensures
            r.min == -0x2000_0000_0000_0000,
            r.max == 0x2000_0000_0000_0000,
            r.wf(),
    {
        Interval { min: -IMAX, max: IMAX }
    }
}

impl Default for Interval {
    /// The empty interval: its bounds are inverted so that it contains no
    /// point and unions with it leave the other operand unchanged.
    fn default() -> (r: Interval)
        ensures
            r.min == 0x2000_0000_0000_0000,
            r.max == -0x2000_0000_0000_0000,
    {
        Interval { min: IMAX, max: -IMAX }
    }
}

} // verus!
