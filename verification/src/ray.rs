//! Rays, and the closest-approach test of a ray against a particle's sphere.

use vstd::prelude::*;
use crate::constants::PARTICLE_RADIUS;
use crate::fixed::lemma_mul_bound;
use crate::vector::Vec3;

verus! {

/// Largest magnitude a component of a ray's direction may have (2.0).
pub const DIRECTION_MAX: i64 = 2_000_000;

/// A half-line: the points `origin + t * direction` with `t >= 0`.
#[derive(Clone, Copy, Debug, PartialEq, Eq, Structural)]
pub struct Ray3d {
    pub origin: Vec3,
    /// Need not have unit length; every test here is invariant under its length.
    pub direction: Vec3,
}

/// The scalar product of two vectors, in squared millionths.
pub open spec fn dot(a: Vec3, b: Vec3) -> int {
    a.x * b.x + a.y * b.y + a.z * b.z
}

impl Ray3d {
    /// The origin is in the coordinate range and the direction is short
    /// enough for the hit test to be computed exactly in 128 bits.
    pub open spec fn wf(self) -> bool {
        &&& self.origin.in_range()
        &&& -DIRECTION_MAX <= self.direction.x <= DIRECTION_MAX
        &&& -DIRECTION_MAX <= self.direction.y <= DIRECTION_MAX
        &&& -DIRECTION_MAX <= self.direction.z <= DIRECTION_MAX
    }

    /// The ray with its origin saturated into the coordinate range and
    /// each component of its direction into `[-DIRECTION_MAX, DIRECTION_MAX]`.
    pub open spec fn saturated(self) -> Ray3d {
        Ray3d {
            origin: self.origin.spec_clamped(),
            direction: Vec3 {
                x: clamp_direction_spec(self.direction.x),
                y: clamp_direction_spec(self.direction.y),
                z: clamp_direction_spec(self.direction.z),
            },
        }
    }

    /// A ray from `origin` along `direction`, each saturated into its range.
    pub fn new(origin: Vec3, direction: Vec3) -> (ray: Ray3d)
        ensures
            ray == (Ray3d { origin, direction }).saturated(),
            ray.wf(),
            (Ray3d { origin, direction }).wf() ==> ray == (Ray3d { origin, direction }),
    {
        Ray3d {
            origin: origin.clamped(),
            direction: Vec3 {
                x: clamp_direction(direction.x),
                y: clamp_direction(direction.y),
                z: clamp_direction(direction.z),
            },
        }
    }

    /// The vector from the origin to `position`.
    pub open spec fn to(self, position: Vec3) -> Vec3 {
        Vec3 {
            x: (position.x - self.origin.x) as i64,
            y: (position.y - self.origin.y) as i64,
            z: (position.z - self.origin.z) as i64,
        }
    }

    /// How far along the ray the point closest to `position` lies: the ray
    /// parameter of that point times the squared length of the direction.
    /// Negative when `position` is behind the origin.
    pub open spec fn projection(self, position: Vec3) -> int {
        dot(self.to(position), self.direction)
    }

    /// The ray passes `position` in front of its origin at less than a
    /// particle's radius. With `w` the vector to `position` and `d` the
    /// direction, the squared distance from `position` to the line is
    /// `(w.w * d.d - (w.d)^2) / d.d`; the test compares it with the squared
    /// radius without dividing.
    pub open spec fn hits(self, position: Vec3) -> bool {
        let w = self.to(position);
        let d = self.direction;
        &&& self.projection(position) >= 0
        &&& dot(w, w) * dot(d, d) - self.projection(position) * self.projection(position)
            < PARTICLE_RADIUS * PARTICLE_RADIUS * dot(d, d)
    }

    /// The projection of `position` if the ray hits a particle there.
    pub open spec fn cast(self, position: Vec3) -> Option<i64> {
        if self.hits(position) {
            Some(self.projection(position) as i64)
        } else {
            None
        }
    }
}

/// A direction component saturated into `[-DIRECTION_MAX, DIRECTION_MAX]`.
pub open spec fn clamp_direction_spec(v: i64) -> i64 {
    if v < -DIRECTION_MAX {
        (-DIRECTION_MAX) as i64
    } else if v > DIRECTION_MAX {
        DIRECTION_MAX
    } else {
        v
    }
}

fn clamp_direction(v: i64) -> (r: i64)
    ensures
        r == clamp_direction_spec(v),
{
    if v < -DIRECTION_MAX {
        -DIRECTION_MAX
    } else if v > DIRECTION_MAX {
        DIRECTION_MAX
    } else {
        v
    }
}

/// The scalar product of two vectors whose components are bounded.
fn dot_wide(a: Vec3, b: Vec3, Ghost(bound_a): Ghost<int>, Ghost(bound_b): Ghost<int>) -> (r: i128)
    requires
        0 <= bound_a <= 200_000_000_000,
        0 <= bound_b <= 200_000_000_000,
        -bound_a <= a.x <= bound_a,
        -bound_a <= a.y <= bound_a,
        -bound_a <= a.z <= bound_a,
        -bound_b <= b.x <= bound_b,
        -bound_b <= b.y <= bound_b,
        -bound_b <= b.z <= bound_b,
    ensures
        r == dot(a, b),
        ({
            let m = bound_a * bound_b;
            -m - m - m <= r <= m + m + m
        }),
{
    proof {
        lemma_mul_bound(a.x as int, b.x as int, bound_a, bound_b);
        lemma_mul_bound(a.y as int, b.y as int, bound_a, bound_b);
        lemma_mul_bound(a.z as int, b.z as int, bound_a, bound_b);
        lemma_mul_bound(bound_a, bound_b, 200_000_000_000, 200_000_000_000);
    }
    let xx: i128 = (a.x as i128) * (b.x as i128);
    let yy: i128 = (a.y as i128) * (b.y as i128);
    let zz: i128 = (a.z as i128) * (b.z as i128);
    xx + yy + zz
}

/// Tests a ray against the sphere of a particle at `position`: `Some` with
/// the projection when the ray passes within the particle's radius in front
/// of its origin, `None` otherwise. Among particles hit by one ray, the one
/// with the smallest projection is nearest to the origin.
pub fn raycast_particle(ray: &Ray3d, position: Vec3) -> (hit: Option<i64>)
    requires
        ray.wf(),
        position.in_range(),
    ensures
        hit == ray.cast(position),
        hit matches Some(t) ==> t >= 0 && t == ray.projection(position),
{
    let w = Vec3 {
        x: position.x - ray.origin.x,
        y: position.y - ray.origin.y,
        z: position.z - ray.origin.z,
    };
    assert(w == ray.to(position));
    let d = ray.direction;
    let projection: i128 = dot_wide(w, d, Ghost(200_000_000_000), Ghost(2_000_000));
    if projection < 0 {
        return None;
    }
    let ww: i128 = dot_wide(w, w, Ghost(200_000_000_000), Ghost(200_000_000_000));
    let dd: i128 = dot_wide(d, d, Ghost(2_000_000), Ghost(2_000_000));
    proof {
        lemma_mul_bound(ww as int, dd as int, 120_000_000_000_000_000_000_000, 12_000_000_000_000);
        lemma_mul_bound(
            projection as int,
            projection as int,
            1_200_000_000_000_000_000,
            1_200_000_000_000_000_000,
        );
    }
    let radius_squared: i128 = (PARTICLE_RADIUS as i128) * (PARTICLE_RADIUS as i128);
    let off_axis: i128 = ww * dd - projection * projection;
    if off_axis < radius_squared * dd {
        Some(projection as i64)
    } else {
        None
    }
}

} // verus!
