//! Fixed-point vectors in the plane and in space.

use vstd::prelude::*;
use crate::fixed::{clamp_coord, in_range, saturate, ONE};

verus! {

/// A point or displacement on the screen, in millionths of a pixel.
#[derive(Clone, Copy, Debug, PartialEq, Eq, Structural)]
pub struct Vec2 {
    pub x: i64,
    pub y: i64,
}

/// A point or displacement in space, in millionths of a metre; also a
/// triple of per-axis factors, in millionths.
#[derive(Clone, Copy, Debug, PartialEq, Eq, Structural)]
pub struct Vec3 {
    pub x: i64,
    pub y: i64,
    pub z: i64,
}

/// One of the three axes of space.
#[derive(Clone, Copy, Debug, PartialEq, Eq, Structural)]
pub enum Axis {
    X,
    Y,
    Z,
}

/// The `x`, `y` or `z` component of `v` for `axis` 0, 1 or 2.
pub open spec fn component(v: Vec3, axis: int) -> int {
    if axis == 0 {
        v.x as int
    } else if axis == 1 {
        v.y as int
    } else {
        v.z as int
    }
}

impl Vec2 {
    pub fn new(x: i64, y: i64) -> (v: Vec2)
        ensures
            v == (Vec2 { x, y }),
    {
        Vec2 { x, y }
    }

    /// Both components lie within the coordinate range.
    pub open spec fn in_range(self) -> bool {
        in_range(self.x as int) && in_range(self.y as int)
    }
}

impl Vec3 {
    pub fn new(x: i64, y: i64, z: i64) -> (v: Vec3)
        ensures
            v == (Vec3 { x, y, z }),
    {
        Vec3 { x, y, z }
    }

    /// The origin, and the offset that moves nothing.
    pub open spec fn spec_zero() -> Vec3 {
        Vec3 { x: 0, y: 0, z: 0 }
    }

    /// The per-axis scale that changes nothing.
    pub open spec fn spec_one() -> Vec3 {
        Vec3 { x: ONE, y: ONE, z: ONE }
    }

    #[verifier::when_used_as_spec(spec_zero)]
    pub fn zero() -> (v: Vec3)
        ensures
            v == Vec3::spec_zero(),
    {
        Vec3 { x: 0, y: 0, z: 0 }
    }

    #[verifier::when_used_as_spec(spec_one)]
    pub fn one() -> (v: Vec3)
        ensures
            v == Vec3::spec_one(),
    {
        Vec3 { x: ONE, y: ONE, z: ONE }
    }

    /// All three components lie within the coordinate range.
    pub open spec fn in_range(self) -> bool {
        in_range(self.x as int) && in_range(self.y as int) && in_range(self.z as int)
    }

    /// The vector with each component saturated into the coordinate range.
    pub open spec fn spec_clamped(self) -> Vec3 {
        Vec3 {
            x: clamp_coord(self.x as int) as i64,
            y: clamp_coord(self.y as int) as i64,
            z: clamp_coord(self.z as int) as i64,
        }
    }

    #[verifier::when_used_as_spec(spec_clamped)]
    pub fn clamped(self) -> (v: Vec3)
        ensures
            v == self.spec_clamped(),
            v.in_range(),
            self.in_range() ==> v == self,
    {
        Vec3 {
            x: saturate(self.x as i128),
            y: saturate(self.y as i128),
            z: saturate(self.z as i128),
        }
    }
}

} // verus!
