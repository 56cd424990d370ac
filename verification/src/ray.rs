//! Rays: half-lines through space.

use crate::scalar::Scalar;
use crate::vector::{Point3, Vec3};
use vstd::prelude::*;
use vstd::std_specs::ops::{AddSpec, MulSpec};

verus! {

/// The points `orig + dir * t`.
#[derive(Clone, Copy, Debug, PartialEq, Eq, Structural)]
pub struct Ray {
    pub orig: Point3,
    pub dir: Vec3,
}

impl Ray {
    /// The point of the ray at the parameter `t`: `orig + dir * t`.
    pub open spec fn at_spec(self, t: Scalar) -> Point3 {
        self.orig.add_spec(self.dir.mul_spec(t))
    }

    /// The ray from `origin` along `direction`. Any direction is taken,
    /// the zero vector too.
    pub fn new(origin: Point3, direction: Vec3) -> (r: Ray)
        ensures
            r == (Ray { orig: origin, dir: direction }),
    {
        Ray { orig: origin, dir: direction }
    }

    /// Where the ray starts.
    pub fn origin(&self) -> (p: Point3)
        ensures
            p == self.orig,
    {
        self.orig
    }

    /// The direction of the ray, as it was given.
    pub fn direction(&self) -> (d: Vec3)
        ensures
            d == self.dir,
    {
        self.dir
    }

    /// The point of the ray at the parameter `t`.
    pub fn at(&self, t: Scalar) -> (p: Point3)
        ensures
            p == self.at_spec(t),
    {
        self.orig + self.dir * t
    }
}

} // verus!
