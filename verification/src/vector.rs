//! Points and offsets in three dimensions.

use vstd::prelude::*;
use crate::fixed::{add_raw, fixed, mul_raw, Fixed};

verus! {

/// A point or an offset with fixed-point coordinates.
#[derive(Clone, Copy, Debug, PartialEq, Eq, Structural)]
pub struct Vec3 {
    pub x: Fixed,
    pub y: Fixed,
    pub z: Fixed,
}

impl Vec3 {
    /// The sum of two vectors, coordinate by coordinate.
    pub open spec fn plus(self, other: Vec3) -> Vec3 {
        Vec3 {
            x: fixed(add_raw(self.x@, other.x@)),
            y: fixed(add_raw(self.y@, other.y@)),
            z: fixed(add_raw(self.z@, other.z@)),
        }
    }

    /// The product of two vectors, coordinate by coordinate.
    pub open spec fn times(self, other: Vec3) -> Vec3 {
        Vec3 {
            x: fixed(mul_raw(self.x@, other.x@)),
            y: fixed(mul_raw(self.y@, other.y@)),
            z: fixed(mul_raw(self.z@, other.z@)),
        }
    }

    /// Square of the distance between two points, in squared raw units and
    /// without rounding.
    pub open spec fn distance_squared(self, other: Vec3) -> int {
        (self.x@ - other.x@) * (self.x@ - other.x@) + (self.y@ - other.y@) * (self.y@ - other.y@)
            + (self.z@ - other.z@) * (self.z@ - other.z@)
    }

    /// The vector with the given coordinates.
    pub fn new(x: Fixed, y: Fixed, z: Fixed) -> (r: Vec3)
        ensures
            r == (Vec3 { x, y, z }),
    {
        Vec3 { x, y, z }
    }

    /// The vector with all three coordinates equal to `v`.
    pub fn splat(v: Fixed) -> (r: Vec3)
        ensures
            r == (Vec3 { x: v, y: v, z: v }),
    {
        Vec3 { x: v, y: v, z: v }
    }

    /// The sum of two vectors.
    pub fn add(self, other: Vec3) -> (r: Vec3)
        ensures
            r == self.plus(other),
    {
        Vec3 { x: self.x.add(other.x), y: self.y.add(other.y), z: self.z.add(other.z) }
    }

    /// The coordinates of `self` each multiplied by that of `factors`.
    pub fn scale(self, factors: Vec3) -> (r: Vec3)
        ensures
            r == self.times(factors),
    {
        Vec3 { x: self.x.mul(factors.x), y: self.y.mul(factors.y), z: self.z.mul(factors.z) }
    }
}

} // verus!
