//! Ranges of scalars, for the distances at which a hit counts and for the
//! intensities a color channel may take.

use crate::scalar::Scalar;
use vstd::prelude::*;

verus! {

/// The range from `min` to `max`. A range whose `min` lies above its `max`
/// holds nothing.
#[derive(Clone, Copy, Debug, PartialEq, Eq, Structural)]
pub struct Interval {
    pub min: Scalar,
    pub max: Scalar,
}

impl Interval {
    /// Whether `x` lies in the range, ends included.
    pub open spec fn contains_spec(self, x: Scalar) -> bool {
        self.min@ <= x@ <= self.max@
    }

    /// Whether `x` lies in the range and on neither of its ends.
    pub open spec fn surrounds_spec(self, x: Scalar) -> bool {
        self.min@ < x@ < self.max@
    }

    /// The member of the range nearest to `x`, for a range that is not
    /// empty.
    pub open spec fn clamp_spec(self, x: Scalar) -> Scalar {
        if x@ < self.min@ {
            self.min
        } else if x@ > self.max@ {
            self.max
        } else {
            x
        }
    }

    /// The range that holds nothing: from positive to negative infinity.
    pub open spec fn empty_spec() -> Interval {
        Interval { min: Scalar::infinity_spec(), max: Scalar::neg_infinity_spec() }
    }

    /// The range that holds everything: from negative to positive infinity.
    pub open spec fn universe_spec() -> Interval {
        Interval { min: Scalar::neg_infinity_spec(), max: Scalar::infinity_spec() }
    }

    /// The range from `min` to `max`.
    pub fn new(min: Scalar, max: Scalar) -> (r: Interval)
        ensures
            r == (Interval { min, max }),
    {
        Interval { min, max }
    }

    /// The range that holds no scalar.
    pub fn empty() -> (r: Interval)
        ensures
            r == Interval::empty_spec(),
            forall|x: Scalar| !r.contains_spec(x),
    {
        Interval { min: Scalar::infinity(), max: Scalar::neg_infinity() }
    }

    /// The range that holds every scalar.
    pub fn universe() -> (r: Interval)
        ensures
            r == Interval::universe_spec(),
            forall|x: Scalar| r.contains_spec(x),
    {
        Interval { min: Scalar::neg_infinity(), max: Scalar::infinity() }
    }

    /// Whether `x` lies in the range, ends included.
    pub fn contains(&self, x: Scalar) -> (r: bool)
        ensures
            r == self.contains_spec(x),
    {
        self.min <= x && x <= self.max
    }

    /// Whether `x` lies in the range and on neither of its ends.
    pub fn surrounds(&self, x: Scalar) -> (r: bool)
        ensures
            r == self.surrounds_spec(x),
    {
        self.min < x && x < self.max
    }

    /// `min` for an `x` below the range, `max` for one above it, and `x`
    /// itself for one inside.
    pub fn clamp(&self, x: Scalar) -> (r: Scalar)
        ensures
            r == self.clamp_spec(x),
            self.min@ <= self.max@ ==> self.contains_spec(r),
    {
        if x < self.min {
            self.min
        } else if x > self.max {
            self.max
        } else {
            x
        }
    }
}

} // verus!
