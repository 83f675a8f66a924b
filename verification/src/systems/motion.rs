//! The orbit animation of the selected particles and the circles that show
//! the orbits.

use vstd::prelude::*;
use crate::components::{Motion1State, ParticleGroupState, TrajectoryCircle, TrajectoryState};
use crate::constants::{MOTION_MIN_RADIUS, TRAJECTORY_MIN_RADIUS};
use crate::fixed::{clamp_coord, div_floor, lemma_mul_bound, saturate, COORD_MAX, ONE};
use crate::vector::Vec3;
use crate::world::{any_selected, selection_set, Particle, ParticleWorld};

verus! {

/// Every particle of `s` is in motion.
pub open spec fn all_in_motion(s: Seq<Particle>) -> bool {
    forall|k: int| 0 <= k < s.len() ==> (#[trigger] s[k]).in_motion
}

/// Some particle of `s` is in motion.
pub open spec fn any_in_motion(s: Seq<Particle>) -> bool {
    exists|k: int| 0 <= k < s.len() && (#[trigger] s[k]).in_motion
}

/// `s` after the motion button was pressed. With a selection, every
/// selected particle changes between motion and rest. Without one, all
/// particles stop if all were in motion, and all start otherwise.
pub open spec fn motion_toggled(s: Seq<Particle>) -> Seq<Particle> {
    if any_selected(s) {
        s.map_values(
            |p: Particle|
                if p.selected {
                    Particle { in_motion: !p.in_motion, ..p }
                } else {
                    p
                },
        )
    } else {
        let start = !all_in_motion(s);
        s.map_values(|p: Particle| Particle { in_motion: start, ..p })
    }
}

/// Handles a press of the motion button: see [`motion_toggled`]. The
/// animation is active afterwards exactly when some particle is in motion.
pub fn toggle_motion1(world: &mut ParticleWorld, motion1_state: &mut Motion1State)
    requires
        old(world).wf(),
    ensures
        final(world).wf(),
        final(world).next_id() == old(world).next_id(),
        final(world)@ == motion_toggled(old(world)@),
        final(motion1_state).is_active == any_in_motion(final(world)@),
        final(motion1_state).rotation_speed == old(motion1_state).rotation_speed,
{
    let ghost before = world@;
    let n: usize = world.len();
    let mut selected_seen: bool = false;
    let mut all_moving: bool = true;
    let mut i: usize = 0;
    while i < n
        invariant
            world@ == before,
            n == before.len(),
            i <= n,
            selected_seen == any_selected(before.take(i as int)),
            all_moving == all_in_motion(before.take(i as int)),
        decreases n - i,
    {
        let p: Particle = world.particle(i);
        proof {
            let prefix = before.take(i as int);
            let longer = before.take(i + 1);
            assert(longer[i as int] == before[i as int]);
            if any_selected(longer) && !p.selected {
                let k = choose|k: int| 0 <= k < longer.len() && (#[trigger] longer[k]).selected;
                assert(prefix[k].selected);
            }
            if any_selected(prefix) {
                let k = choose|k: int| 0 <= k < prefix.len() && (#[trigger] prefix[k]).selected;
                assert(longer[k].selected);
            }
            if all_in_motion(prefix) && p.in_motion {
                assert forall|k: int| 0 <= k < longer.len() implies (#[trigger] longer[k]).in_motion by {
                    if k < i {
                        assert(prefix[k].in_motion);
                    }
                }
            }
            if all_in_motion(longer) {
                assert forall|k: int| 0 <= k < prefix.len() implies (#[trigger] prefix[k]).in_motion by {
                    assert(longer[k].in_motion);
                }
            }
        }
        if p.selected {
            selected_seen = true;
        }
        if !p.in_motion {
            all_moving = false;
        }
        i += 1;
    }
    assert(before.take(n as int) =~= before);
    let start: bool = !all_moving;
    let mut moving: bool = false;
    let ghost mut witness: int = 0;
    let mut j: usize = 0;
    while j < n
        invariant
            world.wf(),
            world.next_id() == old(world).next_id(),
            before == old(world)@,
            world@.len() == n,
            before.len() == n,
            j <= n,
            selected_seen == any_selected(before),
            start == !all_in_motion(before),
            forall|k: int| 0 <= k < j ==> world@[k] == motion_toggled(before)[k],
            forall|k: int| j <= k < n ==> world@[k] == before[k],
            moving ==> 0 <= witness < j && world@[witness].in_motion,
            !moving ==> forall|k: int| 0 <= k < j ==> !(#[trigger] world@[k]).in_motion,
        decreases n - j,
    {
        let p: Particle = world.particle(j);
        let target: bool = if selected_seen {
            if p.selected {
                !p.in_motion
            } else {
                p.in_motion
            }
        } else {
            start
        };
        world.set_in_motion(j, target);
        if target {
            moving = true;
            proof {
                witness = j as int;
            }
        }
        j += 1;
    }
    assert(world@ =~= motion_toggled(before));
    proof {
        if moving {
            assert(world@[witness].in_motion);
        } else if any_in_motion(world@) {
            let k = choose|k: int| 0 <= k < world@.len() && (#[trigger] world@[k]).in_motion;
            assert(!world@[k].in_motion);
        }
    }
    motion1_state.is_active = moving;
}

/// Shows or hides the orbits.
pub fn toggle_trajectory(trajectory_state: &mut TrajectoryState)
    ensures
        final(trajectory_state).is_visible == !old(trajectory_state).is_visible,
{
    trajectory_state.is_visible = !trajectory_state.is_visible;
}

/// A cosine or sine brought into `[-ONE, ONE]`.
pub open spec fn unit_clamped(v: int) -> int {
    if v < -ONE {
        -(ONE as int)
    } else if v > ONE {
        ONE as int
    } else {
        v
    }
}

/// The particle is farther than `MOTION_MIN_RADIUS` from the vertical
/// axis through `(cx, cz)`.
pub open spec fn off_axis(position: Vec3, cx: int, cz: int) -> bool {
    let rx = position.x - cx;
    let rz = position.z - cz;
    rx * rx + rz * rz > MOTION_MIN_RADIUS * MOTION_MIN_RADIUS
}

/// `position` turned about the vertical axis through `(cx, cz)` by the
/// angle whose cosine and sine are `cos` and `sin`; the height stays.
pub open spec fn orbited(position: Vec3, cx: int, cz: int, cos: int, sin: int) -> Vec3 {
    let rx = position.x - cx;
    let rz = position.z - cz;
    Vec3 {
        x: clamp_coord(cx + (rx * cos - rz * sin) / (ONE as int)) as i64,
        y: position.y,
        z: clamp_coord(cz + (rx * sin + rz * cos) / (ONE as int)) as i64,
    }
}

/// `s` one step of the animation later: every selected particle that is
/// off the axis has turned about it; the axis stands at the group offset,
/// saturated into the coordinate range.
pub open spec fn motion_stepped(s: Seq<Particle>, offset: Vec3, cos: i64, sin: i64) -> Seq<
    Particle,
> {
    let cx = clamp_coord(offset.x as int);
    let cz = clamp_coord(offset.z as int);
    let c = unit_clamped(cos as int);
    let sn = unit_clamped(sin as int);
    s.map_values(
        |p: Particle|
            if p.selected && off_axis(p.translation, cx, cz) {
                Particle { translation: orbited(p.translation, cx, cz, c, sn), ..p }
            } else {
                p
            },
    )
}

fn clamp_unit(v: i64) -> (r: i64)
    ensures
        r == unit_clamped(v as int),
{
    if v < -ONE {
        -ONE
    } else if v > ONE {
        ONE
    } else {
        v
    }
}

fn orbit(position: Vec3, cx: i64, cz: i64, cos: i64, sin: i64) -> (r: Option<Vec3>)
    requires
        position.in_range(),
        -COORD_MAX <= cx <= COORD_MAX,
        -COORD_MAX <= cz <= COORD_MAX,
        -ONE <= cos <= ONE,
        -ONE <= sin <= ONE,
    ensures
        r == (if off_axis(position, cx as int, cz as int) {
            Some(orbited(position, cx as int, cz as int, cos as int, sin as int))
        } else {
            None
        }),
        r matches Some(v) ==> v.in_range(),
{
    let rx: i128 = position.x as i128 - cx as i128;
    let rz: i128 = position.z as i128 - cz as i128;
    proof {
        lemma_mul_bound(rx as int, rx as int, 2 * COORD_MAX, 2 * COORD_MAX);
        lemma_mul_bound(rz as int, rz as int, 2 * COORD_MAX, 2 * COORD_MAX);
        lemma_mul_bound(rx as int, cos as int, 2 * COORD_MAX, ONE as int);
        lemma_mul_bound(rz as int, sin as int, 2 * COORD_MAX, ONE as int);
        lemma_mul_bound(rx as int, sin as int, 2 * COORD_MAX, ONE as int);
        lemma_mul_bound(rz as int, cos as int, 2 * COORD_MAX, ONE as int);
        lemma_mul_bound(MOTION_MIN_RADIUS as int, MOTION_MIN_RADIUS as int, 1_000, 1_000);
    }
    let limit: i128 = (MOTION_MIN_RADIUS as i128) * (MOTION_MIN_RADIUS as i128);
    if rx * rx + rz * rz > limit {
        let x: i128 = cx as i128 + div_floor(rx * (cos as i128) - rz * (sin as i128), ONE as i128);
        let z: i128 = cz as i128 + div_floor(rx * (sin as i128) + rz * (cos as i128), ONE as i128);
        Some(Vec3 { x: saturate(x), y: position.y, z: saturate(z) })
    } else {
        None
    }
}

/// Advances the orbit animation by one step. While the animation is
/// active, every selected particle turns about the vertical axis through
/// the group offset by the angle whose cosine and sine are given (values
/// outside `[-ONE, ONE]` are saturated); particles on the axis and
/// unselected particles stay. While it is not active, nothing moves.
pub fn animate_motion1_particles(
    world: &mut ParticleWorld,
    motion1_state: &Motion1State,
    group_state: &ParticleGroupState,
    cos_delta: i64,
    sin_delta: i64,
)
    requires
        old(world).wf(),
    ensures
        final(world).wf(),
        final(world).next_id() == old(world).next_id(),
        motion1_state.is_active ==> final(world)@ == motion_stepped(
            old(world)@,
            group_state.offset,
            cos_delta,
            sin_delta,
        ),
        !motion1_state.is_active ==> final(world)@ == old(world)@,
{
    if !motion1_state.is_active {
        return ;
    }
    let cx: i64 = saturate(group_state.offset.x as i128);
    let cz: i64 = saturate(group_state.offset.z as i128);
    let cos: i64 = clamp_unit(cos_delta);
    let sin: i64 = clamp_unit(sin_delta);
    let ghost before = world@;
    let n: usize = world.len();
    let mut i: usize = 0;
    while i < n
        invariant
            world.wf(),
            world.next_id() == old(world).next_id(),
            before == old(world)@,
            world@.len() == n,
            before.len() == n,
            i <= n,
            cx == clamp_coord(group_state.offset.x as int),
            cz == clamp_coord(group_state.offset.z as int),
            cos == unit_clamped(cos_delta as int),
            sin == unit_clamped(sin_delta as int),
            forall|k: int|
                0 <= k < i ==> world@[k] == motion_stepped(
                    before,
                    group_state.offset,
                    cos_delta,
                    sin_delta,
                )[k],
            forall|k: int| i <= k < n ==> world@[k] == before[k],
        decreases n - i,
    {
        let p: Particle = world.particle(i);
        assert(world@[i as int].wf());
        if p.selected {
            match orbit(p.translation, cx, cz, cos, sin) {
                Some(turned) => {
                    world.set_translation(i, turned);
                },
                None => {},
            }
        }
        i += 1;
    }
    assert(world@ =~= motion_stepped(before, group_state.offset, cos_delta, sin_delta));
}

/// `r` is the square root of `n`, rounded down.
pub open spec fn is_floor_sqrt(n: int, r: int) -> bool {
    0 <= r && r * r <= n < (r + 1) * (r + 1)
}

/// The square root of `n`, rounded down.
pub open spec fn floor_sqrt(n: int) -> int {
    choose|r: int| is_floor_sqrt(n, r)
}

/// A number has at most one rounded-down square root.
pub proof fn lemma_floor_sqrt_unique(n: int, r1: int, r2: int)
    by (nonlinear_arith)
    requires
        is_floor_sqrt(n, r1),
        is_floor_sqrt(n, r2),
    ensures
        r1 == r2,
{
    if r1 < r2 {
        assert((r1 + 1) * (r1 + 1) <= r2 * r2);
    } else if r2 < r1 {
        assert((r2 + 1) * (r2 + 1) <= r1 * r1);
    }
}

/// Largest number that `isqrt` takes: twice the square of `COORD_MAX`.
pub const SQRT_MAX: u128 = 20_000_000_000_000_000_000_000;

/// The square root of `n`, rounded down, found by bisection.
pub fn isqrt(n: u128) -> (r: u64)
    requires
        n <= SQRT_MAX,
    ensures
        is_floor_sqrt(n as int, r as int),
        r == floor_sqrt(n as int),
        r <= 0x100_0000_0000,
{
    let mut lo: u64 = 0;
    let mut hi: u64 = 0x100_0000_0000;
    proof {
        assert(0x100_0000_0000int * 0x100_0000_0000int > SQRT_MAX) by (nonlinear_arith);
    }
    while hi - lo > 1
        invariant
            lo < hi <= 0x100_0000_0000,
            lo * lo <= n < hi * hi,
        decreases hi - lo,
    {
        let mid: u64 = lo + (hi - lo) / 2;
        proof {
            lemma_mul_bound(mid as int, mid as int, 0x100_0000_0000, 0x100_0000_0000);
            assert(0x100_0000_0000int * 0x100_0000_0000int == 0x1_0000_0000_0000_0000_0000int)
                by (nonlinear_arith);
        }
        if (mid as u128) * (mid as u128) <= n {
            lo = mid;
        } else {
            hi = mid;
        }
    }
    proof {
        assert(is_floor_sqrt(n as int, lo as int));
        lemma_floor_sqrt_unique(n as int, lo as int, floor_sqrt(n as int));
    }
    lo
}

/// The radius of the orbit of a particle at `position`: its distance from
/// the vertical axis through the origin, rounded down, and at least
/// `TRAJECTORY_MIN_RADIUS`.
pub open spec fn orbit_radius(position: Vec3) -> int {
    let d = floor_sqrt(position.x * position.x + position.z * position.z);
    if d < TRAJECTORY_MIN_RADIUS {
        TRAJECTORY_MIN_RADIUS as int
    } else {
        d
    }
}

/// A circle to draw: the orbit of `particle_entity`, of the given radius,
/// lying level at `height` around the vertical axis through the origin.
#[derive(Clone, Copy, Debug, PartialEq, Eq, Structural)]
pub struct TrajectorySpawn {
    pub particle_entity: u64,
    pub radius: i64,
    pub height: i64,
}

/// What to change among the circles drawn.
pub struct TrajectoryUpdate {
    /// Circles to add.
    pub spawn: Vec<TrajectorySpawn>,
    /// Handles of circles to remove.
    pub despawn: Vec<u64>,
}

/// Some circle of `circles` shows the orbit of `entity`.
pub open spec fn has_circle(circles: Seq<TrajectoryCircle>, entity: u64) -> bool {
    exists|k: int| 0 <= k < circles.len() && (#[trigger] circles[k]).particle_entity == entity
}

/// The circle to draw for `p`.
pub open spec fn circle_for(p: Particle) -> TrajectorySpawn {
    TrajectorySpawn {
        particle_entity: p.entity,
        radius: orbit_radius(p.translation) as i64,
        height: p.translation.y,
    }
}

/// The circles missing for `s`: one for every selected particle that has
/// none among `circles`, in the order of `s`.
pub open spec fn circles_wanted(s: Seq<Particle>, circles: Seq<TrajectoryCircle>) -> Seq<
    TrajectorySpawn,
>
    decreases s.len(),
{
    if s.len() == 0 {
        Seq::empty()
    } else if s.last().selected && !has_circle(circles, s.last().entity) {
        circles_wanted(s.drop_last(), circles).push(circle_for(s.last()))
    } else {
        circles_wanted(s.drop_last(), circles)
    }
}

/// The handles of the circles of `circles` whose particle is not in the
/// selection `selection`, in the order of `circles`.
pub open spec fn circles_stale(circles: Seq<TrajectoryCircle>, selection: Set<u64>) -> Seq<u64>
    decreases circles.len(),
{
    if circles.len() == 0 {
        Seq::empty()
    } else if !selection.contains(circles.last().particle_entity) {
        circles_stale(circles.drop_last(), selection).push(circles.last().circle)
    } else {
        circles_stale(circles.drop_last(), selection)
    }
}

fn has_circle_for(circles: &Vec<TrajectoryCircle>, entity: u64) -> (found: bool)
    ensures
        found == has_circle(circles@, entity),
{
    let n: usize = circles.len();
    let mut k: usize = 0;
    while k < n
        invariant
            n == circles@.len(),
            k <= n,
            forall|j: int| 0 <= j < k ==> (#[trigger] circles@[j]).particle_entity != entity,
        decreases n - k,
    {
        if circles[k].particle_entity == entity {
            assert(circles@[k as int].particle_entity == entity);
            return true;
        }
        k += 1;
    }
    false
}

fn radius_of(position: Vec3) -> (r: i64)
    requires
        position.in_range(),
    ensures
        r == orbit_radius(position),
{
    proof {
        lemma_mul_bound(position.x as int, position.x as int, COORD_MAX as int, COORD_MAX as int);
        lemma_mul_bound(position.z as int, position.z as int, COORD_MAX as int, COORD_MAX as int);
        assert(position.x * position.x >= 0 && position.z * position.z >= 0) by (nonlinear_arith);
    }
    let xx: i128 = (position.x as i128) * (position.x as i128);
    let zz: i128 = (position.z as i128) * (position.z as i128);
    let d: u64 = isqrt((xx + zz) as u128);
    if d < TRAJECTORY_MIN_RADIUS as u64 {
        TRAJECTORY_MIN_RADIUS
    } else {
        d as i64
    }
}

/// Brings the circles drawn in line with the selection. While orbits are
/// shown, every selected particle without a circle gets one, and every
/// circle whose particle is no longer selected goes. While orbits are
/// hidden, all circles go.
pub fn update_trajectory_visualization(
    trajectory_state: &TrajectoryState,
    world: &ParticleWorld,
    circles: &Vec<TrajectoryCircle>,
) -> (update: TrajectoryUpdate)
    requires
        world.wf(),
    ensures
        trajectory_state.is_visible ==> update.spawn@ == circles_wanted(world@, circles@)
            && update.despawn@ == circles_stale(circles@, selection_set(world@)),
        !trajectory_state.is_visible ==> update.spawn@ == Seq::<TrajectorySpawn>::empty()
            && update.despawn@ == circles_stale(circles@, Set::<u64>::empty()),
{
    let mut spawn: Vec<TrajectorySpawn> = Vec::new();
    let mut despawn: Vec<u64> = Vec::new();
    let visible: bool = trajectory_state.is_visible;
    if visible {
        let n: usize = world.len();
        let mut i: usize = 0;
        while i < n
            invariant
                world.wf(),
                n == world@.len(),
                i <= n,
                spawn@ == circles_wanted(world@.take(i as int), circles@),
            decreases n - i,
        {
            assert(world@.take(i + 1).drop_last() =~= world@.take(i as int));
            let p: Particle = world.particle(i);
            assert(world@[i as int].wf());
            if p.selected && !has_circle_for(circles, p.entity) {
                spawn.push(
                    TrajectorySpawn {
                        particle_entity: p.entity,
                        radius: radius_of(p.translation),
                        height: p.translation.y,
                    },
                );
            }
            i += 1;
        }
        assert(world@.take(n as int) =~= world@);
    }
    let ghost selection = if visible {
        selection_set(world@)
    } else {
        Set::<u64>::empty()
    };
    let m: usize = circles.len();
    let mut j: usize = 0;
    while j < m
        invariant
            world.wf(),
            m == circles@.len(),
            j <= m,
            selection == (if visible {
                selection_set(world@)
            } else {
                Set::<u64>::empty()
            }),
            despawn@ == circles_stale(circles@.take(j as int), selection),
        decreases m - j,
    {
        assert(circles@.take(j + 1).drop_last() =~= circles@.take(j as int));
        let c: TrajectoryCircle = circles[j];
        if !visible || !world.is_selected(c.particle_entity) {
            despawn.push(c.circle);
        }
        j += 1;
    }
    assert(circles@.take(m as int) =~= circles@);
    TrajectoryUpdate { spawn, despawn }
}

} // verus!
