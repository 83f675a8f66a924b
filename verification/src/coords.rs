//! The coordinate model: how a particle's normalized position inside the
//! bounds volume becomes a world position, and how the group transform
//! moves it from there.

use vstd::prelude::*;
use crate::components::ParticleBoundsState;
use crate::fixed::{
    abs_int, clamp_coord, div_floor, lemma_mul_bound, lemma_scaled_additive, lemma_scaled_bracket,
    lemma_scaled_commutes, lemma_scaled_monotone, mul_scaled, saturate, scaled, HALF, ONE,
};
use crate::vector::Vec3;

verus! {

/// The height at which every bounds volume starts (1 m).
pub const BOUNDS_Y_MIN: i64 = 1_000_000;

/// World coordinate, along X or Z, of the normalized coordinate `n` in a
/// volume `extent` wide and centred on the origin.
pub open spec fn world_horizontal(n: int, extent: int) -> int {
    clamp_coord(scaled(n - HALF, extent))
}

/// World height of the normalized coordinate `n` in a volume `height` high.
pub open spec fn world_vertical(n: int, height: int) -> int {
    clamp_coord(BOUNDS_Y_MIN + scaled(n, height))
}

/// World position of the normalized position `base` under `bounds`.
pub open spec fn world_position(base: Vec3, bounds: ParticleBoundsState) -> Vec3 {
    Vec3 {
        x: world_horizontal(base.x as int, bounds.bounds_x as int) as i64,
        y: world_vertical(base.y as int, bounds.bounds_y_height as int) as i64,
        z: world_horizontal(base.z as int, bounds.bounds_z as int) as i64,
    }
}

/// One coordinate after the group transform: scaled about the origin, then offset.
pub open spec fn group_axis(base: int, scale: int, offset: int) -> int {
    clamp_coord(scaled(base, scale) + offset)
}

/// A world position after the group transform.
pub open spec fn group_position(base_world: Vec3, scale: i64, offset: Vec3) -> Vec3 {
    Vec3 {
        x: group_axis(base_world.x as int, scale as int, offset.x as int) as i64,
        y: group_axis(base_world.y as int, scale as int, offset.y as int) as i64,
        z: group_axis(base_world.z as int, scale as int, offset.z as int) as i64,
    }
}

/// Projects a normalized position into the world. Coordinates outside
/// `[0, ONE]` are not rejected: they give positions outside the volume.
pub fn to_world(base: Vec3, bounds: &ParticleBoundsState) -> (world: Vec3)
    ensures
        world == world_position(base, *bounds),
        world.in_range(),
{
    let x: i128 = horizontal_wide(base.x, bounds.bounds_x);
    let z: i128 = horizontal_wide(base.z, bounds.bounds_z);
    let y: i128 = BOUNDS_Y_MIN as i128 + mul_scaled(base.y, bounds.bounds_y_height);
    Vec3 { x: saturate(x), y: saturate(y), z: saturate(z) }
}

/// `scaled(n - HALF, extent)` without saturation.
fn horizontal_wide(n: i64, extent: i64) -> (r: i128)
    ensures
        r == scaled(n - HALF, extent as int),
{
    let centred: i128 = n as i128 - HALF as i128;
    proof {
        lemma_mul_bound(
            centred as int,
            extent as int,
            0x8000_0000_0000_0000 + HALF,
            0x8000_0000_0000_0000,
        );
    }
    let p: i128 = centred * (extent as i128);
    div_floor(p, ONE as i128)
}

/// Applies the group transform to a world position.
pub fn apply_group_transform(base_world: Vec3, scale: i64, offset: Vec3) -> (placed: Vec3)
    ensures
        placed == group_position(base_world, scale, offset),
        placed.in_range(),
{
    let x: i128 = mul_scaled(base_world.x, scale) + offset.x as i128;
    let y: i128 = mul_scaled(base_world.y, scale) + offset.y as i128;
    let z: i128 = mul_scaled(base_world.z, scale) + offset.z as i128;
    Vec3 { x: saturate(x), y: saturate(y), z: saturate(z) }
}

/// With scale one and no offset, the group transform leaves a position in
/// the coordinate range where it is.
pub proof fn lemma_identity_group_transform(base_world: Vec3)
    requires
        base_world.in_range(),
    ensures
        group_position(base_world, ONE, Vec3::zero()) == base_world,
{
    assert((base_world.x * ONE) / (ONE as int) == base_world.x) by (nonlinear_arith);
    assert((base_world.y * ONE) / (ONE as int) == base_world.y) by (nonlinear_arith);
    assert((base_world.z * ONE) / (ONE as int) == base_world.z) by (nonlinear_arith);
}

/// The normalized coordinate, along X or Z, of the world coordinate
/// `world` in a volume `extent` wide: the inverse of [`world_horizontal`],
/// rounded down. Meaningful for a positive extent.
pub open spec fn normalized_horizontal(world: int, extent: int) -> int {
    clamp_coord(HALF + (world * ONE) / extent)
}

/// The normalized coordinate of the world height `world` in a volume
/// `height` high: the inverse of [`world_vertical`], rounded down.
/// Meaningful for a positive height.
pub open spec fn normalized_vertical(world: int, height: int) -> int {
    clamp_coord(((world - BOUNDS_Y_MIN) * ONE) / height)
}

/// The normalized position of the world position `world` under `bounds`.
pub open spec fn normalized_position(world: Vec3, bounds: ParticleBoundsState) -> Vec3 {
    Vec3 {
        x: normalized_horizontal(world.x as int, bounds.bounds_x as int) as i64,
        y: normalized_vertical(world.y as int, bounds.bounds_y_height as int) as i64,
        z: normalized_horizontal(world.z as int, bounds.bounds_z as int) as i64,
    }
}

/// Every extent of the volume is positive.
pub open spec fn has_volume(bounds: ParticleBoundsState) -> bool {
    bounds.bounds_x > 0 && bounds.bounds_y_height > 0 && bounds.bounds_z > 0
}

fn inverse_axis(world: i64, floor: i64, extent: i64) -> (r: i128)
    requires
        extent > 0,
        0 <= floor <= ONE,
    ensures
        r == ((world - floor) * ONE) / (extent as int),
        -0x4000_0000_0000_0000_0000_0000_0000_0000 <= r <= 0x4000_0000_0000_0000_0000_0000_0000_0000,
{
    let above: i128 = world as i128 - floor as i128;
    proof {
        lemma_mul_bound(above as int, ONE as int, 0x8000_0000_0000_0000 + ONE, ONE as int);
    }
    let p: i128 = above * (ONE as i128);
    proof {
        lemma_div_shrinks(p as int, extent as int, (0x8000_0000_0000_0000 + ONE) * ONE);
    }
    div_floor(p, extent as i128)
}

/// Dividing by a positive integer does not take a number further from zero.
proof fn lemma_div_shrinks(p: int, e: int, bound: int)
    by (nonlinear_arith)
    requires
        e >= 1,
        -bound <= p <= bound,
    ensures
        -bound <= p / e <= bound,
{
    assert(p == e * (p / e) + p % e && 0 <= p % e < e);
    if p / e > bound {
        assert(e * (p / e) >= p / e);
    }
    if p / e < -bound {
        assert(e * (p / e) <= p / e);
    }
}

/// Finds the normalized position of a world position: the inverse of
/// [`to_world`]. A volume that has no extent along some axis has no
/// inverse, and the result is `None`.
pub fn to_normalized(world: Vec3, bounds: &ParticleBoundsState) -> (normalized: Option<Vec3>)
    ensures
        normalized == (if has_volume(*bounds) {
            Some(normalized_position(world, *bounds))
        } else {
            None
        }),
        normalized matches Some(n) ==> n.in_range(),
{
    if bounds.bounds_x <= 0 || bounds.bounds_y_height <= 0 || bounds.bounds_z <= 0 {
        return None;
    }
    let x: i128 = HALF as i128 + inverse_axis(world.x, 0, bounds.bounds_x);
    let y: i128 = inverse_axis(world.y, BOUNDS_Y_MIN, bounds.bounds_y_height);
    let z: i128 = HALF as i128 + inverse_axis(world.z, 0, bounds.bounds_z);
    Some(Vec3 { x: saturate(x), y: saturate(y), z: saturate(z) })
}

/// Dividing a rounded-down scaled product by the second factor again
/// gives back the first factor, short by at most one unit and the share of
/// `ONE` in the second factor.
proof fn lemma_inverse_axis(a: int, e: int)
    by (nonlinear_arith)
    requires
        e > 0,
    ensures
        ({
            let w = (a * e) / (ONE as int);
            let back = (w * ONE) / e;
            back <= a && (a - back) * e < ONE + e
        }),
{
    let p = a * e;
    let w = p / (ONE as int);
    assert(p == ONE * w + p % (ONE as int) && 0 <= p % (ONE as int) < ONE);
    let q = w * ONE;
    let back = q / e;
    assert(q == e * back + q % e && 0 <= q % e < e);
    assert(q <= a * e);
    assert(e * back <= a * e);
    assert(back <= a) by {
        if back > a {
            assert(e * back >= e * (a + 1));
        }
    }
    assert((a - back) * e == a * e - e * back);
}

/// Projecting into the world and back recovers a normalized position
/// inside the volume, short along each axis by at most one unit and the
/// share of `ONE` in the extent of that axis.
pub proof fn lemma_to_world_round_trip(n: Vec3, bounds: ParticleBoundsState)
    requires
        is_normalized(n),
        bounds.wf(),
        has_volume(bounds),
    ensures
        ({
            let back = normalized_position(world_position(n, bounds), bounds);
            &&& back.x <= n.x && (n.x - back.x) * bounds.bounds_x < ONE + bounds.bounds_x
            &&& back.y <= n.y && (n.y - back.y) * bounds.bounds_y_height < ONE
                + bounds.bounds_y_height
            &&& back.z <= n.z && (n.z - back.z) * bounds.bounds_z < ONE + bounds.bounds_z
        }),
{
    lemma_world_position_exact(n, bounds);
    lemma_inverse_axis(n.x - HALF, bounds.bounds_x as int);
    lemma_inverse_axis(n.y as int, bounds.bounds_y_height as int);
    lemma_inverse_axis(n.z - HALF, bounds.bounds_z as int);
    lemma_back_in_range(n.x - HALF, bounds.bounds_x as int);
    lemma_back_in_range(n.y as int, bounds.bounds_y_height as int);
    lemma_back_in_range(n.z - HALF, bounds.bounds_z as int);
}

/// The way back from a coordinate of magnitude at most `ONE` stays within
/// a few units of `ONE`.
proof fn lemma_back_in_range(a: int, e: int)
    by (nonlinear_arith)
    requires
        e > 0,
        -ONE <= a <= ONE,
    ensures
        -2 * ONE - 1 <= (((a * e) / (ONE as int)) * ONE) / e <= ONE,
{
    lemma_inverse_axis(a, e);
    let back = (((a * e) / (ONE as int)) * ONE) / e;
    assert(back <= a);
    assert((a - back) * e < ONE + e);
    if back < -2 * ONE - 1 {
        assert(a - back >= ONE + 1);
        assert((a - back) * e >= (ONE + 1) * e);
        assert((ONE + 1) * e >= ONE + e);
    }
}

/// `v` is a normalized position inside the volume: every coordinate in `[0, ONE]`.
pub open spec fn is_normalized(v: Vec3) -> bool {
    0 <= v.x <= ONE && 0 <= v.y <= ONE && 0 <= v.z <= ONE
}

/// A factor of magnitude at most `bound_a / ONE` changes a length by at
/// most that share of it, up to one unit of rounding.
proof fn lemma_scaled_small(a: int, b: int, bound_a: int)
    requires
        -bound_a <= a <= bound_a,
        0 <= bound_a,
    ensures
        -(bound_a * abs_int(b)) - ONE <= scaled(a, b) * ONE <= bound_a * abs_int(b),
{
    lemma_scaled_bracket(a, b);
    lemma_mul_bound(a, b, bound_a, abs_int(b));
}

/// Inside the volume the projection does not saturate: along X and Z it is
/// the centred coordinate times the extent, along Y the coordinate times
/// the height above the floor of the volume, each rounded down; and the
/// result lies in the volume.
pub proof fn lemma_world_position_exact(n: Vec3, bounds: ParticleBoundsState)
    requires
        is_normalized(n),
        bounds.wf(),
    ensures
        world_position(n, bounds).x == scaled(n.x - HALF, bounds.bounds_x as int),
        world_position(n, bounds).y == BOUNDS_Y_MIN + scaled(n.y as int, bounds.bounds_y_height as int),
        world_position(n, bounds).z == scaled(n.z - HALF, bounds.bounds_z as int),
        -bounds.bounds_x - 2 <= 2 * world_position(n, bounds).x <= bounds.bounds_x,
        BOUNDS_Y_MIN <= world_position(n, bounds).y <= BOUNDS_Y_MIN + bounds.bounds_y_height,
        -bounds.bounds_z - 2 <= 2 * world_position(n, bounds).z <= bounds.bounds_z,
{
    lemma_scaled_small(n.x - HALF, bounds.bounds_x as int, HALF as int);
    lemma_scaled_small(n.z - HALF, bounds.bounds_z as int, HALF as int);
    lemma_scaled_monotone(0, n.y as int, bounds.bounds_y_height as int);
    lemma_scaled_monotone(n.y as int, ONE as int, bounds.bounds_y_height as int);
    assert(scaled(0, bounds.bounds_y_height as int) == 0);
    assert(scaled(ONE as int, bounds.bounds_y_height as int) == bounds.bounds_y_height) by {
        lemma_scaled_commutes(ONE as int, bounds.bounds_y_height as int);
    }
}

/// The projection is linear in the normalized position, axis by axis:
/// moving from `n` to `m` inside the volume moves the world position along
/// each axis by the difference of the coordinates times the extent of that
/// axis, up to one unit of rounding, whatever the other two coordinates are.
pub proof fn lemma_world_position_linear(n: Vec3, m: Vec3, bounds: ParticleBoundsState)
    requires
        is_normalized(n),
        is_normalized(m),
        bounds.wf(),
    ensures
        ({
            let step = world_position(m, bounds).x - world_position(n, bounds).x;
            let slope = scaled(m.x - n.x, bounds.bounds_x as int);
            slope <= step <= slope + 1
        }),
        ({
            let step = world_position(m, bounds).y - world_position(n, bounds).y;
            let slope = scaled(m.y - n.y, bounds.bounds_y_height as int);
            slope <= step <= slope + 1
        }),
        ({
            let step = world_position(m, bounds).z - world_position(n, bounds).z;
            let slope = scaled(m.z - n.z, bounds.bounds_z as int);
            slope <= step <= slope + 1
        }),
{
    lemma_world_position_exact(n, bounds);
    lemma_world_position_exact(m, bounds);
    lemma_scaled_additive(n.x - HALF, m.x - n.x, bounds.bounds_x as int);
    lemma_scaled_additive(n.y as int, m.y - n.y, bounds.bounds_y_height as int);
    lemma_scaled_additive(n.z - HALF, m.z - n.z, bounds.bounds_z as int);
}

/// The projection is continuous in the extents: when the bounds change
/// from `before` to `after`, a particle with a fixed normalized position
/// inside the volume moves along X and Z by at most half the change of the
/// extent, and along Y by at most the change of the height, up to two
/// units of rounding. In particular it does not move when the extents
/// do not change, and never jumps.
pub proof fn lemma_world_position_continuous(
    n: Vec3,
    before: ParticleBoundsState,
    after: ParticleBoundsState,
)
    requires
        is_normalized(n),
        before.wf(),
        after.wf(),
    ensures
        2 * abs_int(world_position(n, after).x - world_position(n, before).x) <= abs_int(
            after.bounds_x - before.bounds_x,
        ) + 4,
        abs_int(world_position(n, after).y - world_position(n, before).y) <= abs_int(
            after.bounds_y_height - before.bounds_y_height,
        ) + 2,
        2 * abs_int(world_position(n, after).z - world_position(n, before).z) <= abs_int(
            after.bounds_z - before.bounds_z,
        ) + 4,
{
    lemma_world_position_exact(n, before);
    lemma_world_position_exact(n, after);
    lemma_extent_step(n.x - HALF, before.bounds_x as int, after.bounds_x as int, HALF as int);
    lemma_extent_step(n.y as int, before.bounds_y_height as int, after.bounds_y_height as int, ONE as int);
    lemma_extent_step(n.z - HALF, before.bounds_z as int, after.bounds_z as int, HALF as int);
}

/// Changing the second factor of a scaled product changes the product by
/// the first factor's share of the change, up to rounding.
proof fn lemma_extent_step(a: int, e1: int, e2: int, bound_a: int)
    requires
        -bound_a <= a <= bound_a,
        0 <= bound_a,
    ensures
        abs_int(scaled(a, e2) - scaled(a, e1)) * ONE <= bound_a * abs_int(e2 - e1) + 2 * ONE,
{
    lemma_scaled_commutes(a, e1);
    lemma_scaled_commutes(a, e2);
    lemma_scaled_commutes(a, e2 - e1);
    lemma_scaled_additive(e1, e2 - e1, a);
    lemma_scaled_small(a, e2 - e1, bound_a);
}

} // verus!
