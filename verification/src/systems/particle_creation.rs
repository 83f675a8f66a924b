//! Creating batches of particles at random places, and removing particles.

use rand::rngs::ThreadRng;
use rand::Rng;
use vstd::prelude::*;
use crate::components::{ParticleBoundsState, ParticleCreationState, ParticlePlacementMode};
use crate::constants::PARTICLE_GRID_BOUNDS;
use crate::coords::{to_world, world_position};
use crate::fixed::{clamp_coord, div_floor, lemma_mul_bound, max_int, saturate, COORD_MAX, HALF, ONE};
use crate::ray::dot;
use crate::vector::Vec3;
use crate::world::{fresh_particle, unselected, Particle, ParticleWorld};

verus! {

/// The thread-local random number generator of the `rand` crate. Nothing is
/// known of its state.
#[verifier::external_type_specification]
#[verifier::external_body]
pub struct ExThreadRng(ThreadRng);

/// `rand::thread_rng` hands out a handle to the calling thread's generator.
/// Nothing is claimed of the handle. (The first call on a thread seeds the
/// generator from the operating system and panics if that source fails.)
pub assume_specification[ rand::thread_rng ]() -> (rng: ThreadRng);

/// `Rng::gen_range` on an inclusive range of `i64`: the value drawn lies in
/// the range, both ends included. The call panics on an empty range, which
/// the precondition rules out. Which value comes is up to the generator.
#[verifier::external_body]
fn random_between(rng: &mut ThreadRng, low: i64, high: i64) -> (value: i64)
    requires
        low <= high,
    ensures
        low <= value <= high,
{
    rng.gen_range(low..=high)
}

/// How often a point is drawn for a place in a ball before the centre is taken.
pub const MAX_BALL_ATTEMPTS: usize = 64;

/// The normalized position given to a particle that was not laid out on the
/// bounds volume: its middle.
pub open spec fn spec_middle() -> Vec3 {
    Vec3 { x: HALF, y: HALF, z: HALF }
}

/// The normalized position of the middle of the bounds volume.
#[verifier::when_used_as_spec(spec_middle)]
pub fn middle() -> (v: Vec3)
    ensures
        v == spec_middle(),
{
    Vec3 { x: HALF, y: HALF, z: HALF }
}

/// The bounds to lay particles out on: those given, or a volume of
/// `PARTICLE_GRID_BOUNDS` by `PARTICLE_GRID_BOUNDS`, 1 m high.
pub open spec fn effective_bounds(bounds: Option<ParticleBoundsState>) -> ParticleBoundsState {
    match bounds {
        Some(b) => b,
        None => ParticleBoundsState {
            bounds_x: PARTICLE_GRID_BOUNDS,
            bounds_z: PARTICLE_GRID_BOUNDS,
            bounds_y_height: ONE,
            previous_bounds_x: PARTICLE_GRID_BOUNDS,
            previous_bounds_z: PARTICLE_GRID_BOUNDS,
            previous_bounds_y_height: ONE,
        },
    }
}

/// A length brought into `[0, COORD_MAX]`.
pub open spec fn effective_length(length: int) -> int {
    if length < 0 {
        0
    } else if length > COORD_MAX {
        COORD_MAX as int
    } else {
        length
    }
}

/// The point `offset` away from `center`, lifted to the height `y_min`
/// if it lies lower, and saturated into the coordinate range.
pub open spec fn placed(center: Vec3, offset: Vec3, y_min: i64) -> Vec3 {
    Vec3 {
        x: clamp_coord(center.x + offset.x) as i64,
        y: clamp_coord(max_int(center.y + offset.y, y_min as int)) as i64,
        z: clamp_coord(center.z + offset.z) as i64,
    }
}

/// `offset` is no longer than `radius`.
pub open spec fn in_ball(offset: Vec3, radius: int) -> bool {
    dot(offset, offset) <= radius * radius
}

/// Each component of `offset` is at most the matching component of `half`
/// away from zero.
pub open spec fn in_box(offset: Vec3, half: Vec3) -> bool {
    &&& -half.x <= offset.x <= half.x
    &&& -half.y <= offset.y <= half.y
    &&& -half.z <= offset.z <= half.z
}

/// Half the edge lengths of a box of the given size, each rounded down and
/// brought into `[0, COORD_MAX]`.
pub open spec fn half_extent(size: Vec3) -> Vec3 {
    Vec3 {
        x: effective_length(size.x / 2) as i64,
        y: effective_length(size.y / 2) as i64,
        z: effective_length(size.z / 2) as i64,
    }
}

/// `t` is the world position of some normalized position in `[0, ONE]` on
/// every axis.
pub open spec fn in_bounds_volume(t: Vec3, bounds: ParticleBoundsState) -> bool {
    exists|n: Vec3|
        0 <= n.x <= ONE && 0 <= n.y <= ONE && 0 <= n.z <= ONE && t == #[trigger] world_position(
            n,
            bounds,
        )
}

/// `t` is a place in the ball around `center`, lifted to `y_min`.
pub open spec fn in_ball_around(t: Vec3, center: Vec3, radius: i64, y_min: i64) -> bool {
    exists|offset: Vec3|
        in_ball(offset, effective_length(radius as int)) && t == #[trigger] placed(
            center,
            offset,
            y_min,
        )
}

/// `t` is a place in the box of the given size around `center`, lifted to `y_min`.
pub open spec fn in_box_around(t: Vec3, center: Vec3, size: Vec3, y_min: i64) -> bool {
    exists|offset: Vec3|
        in_box(offset, half_extent(size)) && t == #[trigger] placed(center, offset, y_min)
}

/// Where the particles of a batch may be placed.
#[derive(Clone, Copy, Debug, PartialEq, Eq, Structural)]
pub enum Placement {
    /// Anywhere in the bounds volume.
    Volume { bounds: ParticleBoundsState },
    /// In the ball of the given radius around `center`, not below `y_min`.
    Ball { center: Vec3, radius: i64, y_min: i64 },
    /// In the box of the given size around `center`, not below `y_min`.
    Cube { center: Vec3, size: Vec3, y_min: i64 },
}

/// The placement admits the position `t`.
pub open spec fn admits(placement: Placement, t: Vec3) -> bool {
    match placement {
        Placement::Volume { bounds } => in_bounds_volume(t, bounds),
        Placement::Ball { center, radius, y_min } => in_ball_around(t, center, radius, y_min),
        Placement::Cube { center, size, y_min } => in_box_around(t, center, size, y_min),
    }
}

/// `after` is `before` followed by `count` fresh particles with consecutive
/// identities from `first_entity`, each in the middle of the bounds volume
/// as far as its normalized position goes, and each at a place that
/// `placement` admits.
pub open spec fn batch_spawned(
    before: Seq<Particle>,
    after: Seq<Particle>,
    first_entity: u64,
    count: int,
    placement: Placement,
) -> bool {
    &&& after.len() == before.len() + count
    &&& after.take(before.len() as int) == before
    &&& forall|k: int|
        before.len() <= k < after.len() ==> (#[trigger] after[k]) == fresh_particle(
            (first_entity + (k - before.len())) as u64,
            after[k].translation,
            spec_middle(),
        ) && admits(placement, after[k].translation)
}

/// How many of `count` particles an arena can still take.
pub open spec fn room_for(world: ParticleWorld, count: int) -> int {
    if count <= u64::MAX - world.next_id() {
        count
    } else {
        u64::MAX - world.next_id()
    }
}

/// Adds one particle at `position`. Its normalized position is the middle
/// of the bounds volume, wherever `position` is.
pub fn spawn_single_particle(world: &mut ParticleWorld, position: Vec3) -> (entity: Option<u64>)
    requires
        old(world).wf(),
    ensures
        final(world).wf(),
        old(world).next_id() == u64::MAX ==> entity.is_none() && *final(world) == *old(world),
        old(world).next_id() < u64::MAX ==> entity == Some(old(world).next_id()) && final(world).next_id() == old(world).next_id() + 1 && final(world)@ == old(world)@.push(
            fresh_particle(old(world).next_id(), position.spec_clamped(), spec_middle()),
        ),
{
    world.spawn(position, middle())
}

/// The place for the offset `offset` from `center`.
pub fn place_at_offset(center: Vec3, offset: Vec3, y_min: i64) -> (position: Vec3)
    ensures
        position == placed(center, offset, y_min),
        position.in_range(),
{
    let x: i128 = center.x as i128 + offset.x as i128;
    let y: i128 = center.y as i128 + offset.y as i128;
    let z: i128 = center.z as i128 + offset.z as i128;
    let lifted: i128 = if y >= y_min as i128 {
        y
    } else {
        y_min as i128
    };
    Vec3 { x: saturate(x), y: saturate(lifted), z: saturate(z) }
}

/// A length brought into `[0, COORD_MAX]`.
pub fn clamp_length(length: i64) -> (r: i64)
    ensures
        r == effective_length(length as int),
{
    if length < 0 {
        0
    } else if length > COORD_MAX {
        COORD_MAX
    } else {
        length
    }
}

/// Decides on a point drawn from the cube around a ball: inside the ball
/// it gives the place for it, outside it gives `None`.
pub fn place_in_ball(center: Vec3, radius: i64, y_min: i64, offset: Vec3) -> (position: Option<
    Vec3,
>)
    ensures
        position == (if in_ball(offset, effective_length(radius as int)) {
            Some(placed(center, offset, y_min))
        } else {
            None
        }),
{
    let r: i64 = clamp_length(radius);
    if offset.x < -r || offset.x > r || offset.y < -r || offset.y > r || offset.z < -r || offset.z
        > r {
        proof {
            let x = offset.x as int;
            let y = offset.y as int;
            let z = offset.z as int;
            let rr = r as int;
            assert(x * x >= 0 && y * y >= 0 && z * z >= 0) by (nonlinear_arith);
            assert(x * x > rr * rr || y * y > rr * rr || z * z > rr * rr) by (nonlinear_arith)
                requires
                    rr >= 0,
                    x < -rr || x > rr || y < -rr || y > rr || z < -rr || z > rr,
            ;
        }
        return None;
    }
    proof {
        lemma_mul_bound(offset.x as int, offset.x as int, r as int, r as int);
        lemma_mul_bound(offset.y as int, offset.y as int, r as int, r as int);
        lemma_mul_bound(offset.z as int, offset.z as int, r as int, r as int);
        lemma_mul_bound(r as int, r as int, COORD_MAX as int, COORD_MAX as int);
    }
    let xx: i128 = (offset.x as i128) * (offset.x as i128);
    let yy: i128 = (offset.y as i128) * (offset.y as i128);
    let zz: i128 = (offset.z as i128) * (offset.z as i128);
    let rr: i128 = (r as i128) * (r as i128);
    if xx + yy + zz <= rr {
        Some(place_at_offset(center, offset, y_min))
    } else {
        None
    }
}

/// Draws a place in the ball around `center`: points of the surrounding
/// cube are drawn until one lies in the ball; after `MAX_BALL_ATTEMPTS`
/// points outside it, the centre itself is taken.
fn draw_in_ball(rng: &mut ThreadRng, center: Vec3, radius: i64, y_min: i64) -> (position: Vec3)
    ensures
        in_ball_around(position, center, radius, y_min),
        position.in_range(),
{
    let r: i64 = clamp_length(radius);
    let mut attempt: usize = 0;
    while attempt < MAX_BALL_ATTEMPTS
        invariant
            r == effective_length(radius as int),
        decreases MAX_BALL_ATTEMPTS - attempt,
    {
        let x: i64 = random_between(rng, -r, r);
        let y: i64 = random_between(rng, -r, r);
        let z: i64 = random_between(rng, -r, r);
        let offset = Vec3 { x, y, z };
        match place_in_ball(center, radius, y_min, offset) {
            Some(position) => {
                assert(position == placed(center, offset, y_min));
                return position;
            },
            None => {},
        }
        attempt += 1;
    }
    let origin = Vec3 { x: 0, y: 0, z: 0 };
    let position = place_at_offset(center, origin, y_min);
    proof {
        assert(dot(origin, origin) == 0);
        assert(r as int * r as int >= 0) by (nonlinear_arith);
        assert(in_ball(origin, effective_length(radius as int)));
        assert(position == placed(center, origin, y_min));
    }
    position
}

fn half_length(size: i64) -> (h: i64)
    ensures
        h == effective_length(size / 2),
{
    let half: i128 = div_floor(size as i128, 2);
    if half < 0 {
        0
    } else if half > COORD_MAX as i128 {
        COORD_MAX
    } else {
        half as i64
    }
}

/// Adds `count` particles at random places of the bounds volume, as far as
/// identities last. Returns how many were added.
pub fn spawn_particles_random(
    world: &mut ParticleWorld,
    bounds_state: Option<&ParticleBoundsState>,
    count: usize,
) -> (spawned: usize)
    requires
        old(world).wf(),
    ensures
        final(world).wf(),
        spawned == room_for(*old(world), count as int),
        final(world).next_id() == old(world).next_id() + spawned,
        batch_spawned(
            old(world)@,
            final(world)@,
            old(world).next_id(),
            spawned as int,
            Placement::Volume {
                bounds: effective_bounds(
                    match bounds_state {
                        Some(b) => Some(*b),
                        None => None,
                    },
                ),
            },
        ),
{
    let bounds: ParticleBoundsState = match bounds_state {
        Some(b) => *b,
        None => ParticleBoundsState {
            bounds_x: PARTICLE_GRID_BOUNDS,
            bounds_z: PARTICLE_GRID_BOUNDS,
            bounds_y_height: ONE,
            previous_bounds_x: PARTICLE_GRID_BOUNDS,
            previous_bounds_z: PARTICLE_GRID_BOUNDS,
            previous_bounds_y_height: ONE,
        },
    };
    let ghost before = world@;
    let ghost first = world.next_id();
    let ghost allowed = Placement::Volume { bounds };
    let mut rng = rand::thread_rng();
    let mut spawned: usize = 0;
    assert(before.take(before.len() as int) =~= before);
    while spawned < count
        invariant
            world.wf(),
            before == old(world)@,
            first == old(world).next_id(),
            allowed == (Placement::Volume { bounds }),
            bounds == effective_bounds(
                match bounds_state {
                    Some(b) => Some(*b),
                    None => None,
                },
            ),
            spawned <= count,
            world.next_id() == first + spawned,
            batch_spawned(before, world@, first, spawned as int, allowed),
        decreases count - spawned,
    {
        let normalized_x: i64 = random_between(&mut rng, 0, ONE);
        let normalized_z: i64 = random_between(&mut rng, 0, ONE);
        let normalized_y: i64 = random_between(&mut rng, 0, ONE);
        let normalized = Vec3 { x: normalized_x, y: normalized_y, z: normalized_z };
        let position = to_world(normalized, &bounds);
        let ghost previous = world@;
        match spawn_single_particle(world, position) {
            Some(_) => {
                proof {
                    assert(position == world_position(normalized, bounds));
                    assert(admits(allowed, position));
                    assert(world@.drop_last() =~= previous);
                    lemma_batch_grows(before, previous, world@, first, spawned as int, allowed);
                }
                spawned += 1;
            },
            None => {
                return spawned;
            },
        }
    }
    spawned
}

/// Adds `count` particles at random places in the ball of the given radius
/// around `center`, none lower than `y_min`, as far as identities last.
/// A negative radius counts as zero. For each particle, points of the cube
/// around the ball are drawn until one lies in the ball; should
/// `MAX_BALL_ATTEMPTS` points in a row miss it, the particle is placed at
/// the centre. Returns how many were added.
pub fn spawn_particles_in_ball(
    world: &mut ParticleWorld,
    center: Vec3,
    radius: i64,
    y_min: i64,
    count: usize,
) -> (spawned: usize)
    requires
        old(world).wf(),
    ensures
        final(world).wf(),
        spawned == room_for(*old(world), count as int),
        final(world).next_id() == old(world).next_id() + spawned,
        batch_spawned(
            old(world)@,
            final(world)@,
            old(world).next_id(),
            spawned as int,
            Placement::Ball { center, radius, y_min },
        ),
{
    let ghost before = world@;
    let ghost first = world.next_id();
    let ghost allowed = Placement::Ball { center, radius, y_min };
    let mut rng = rand::thread_rng();
    let mut spawned: usize = 0;
    assert(before.take(before.len() as int) =~= before);
    while spawned < count
        invariant
            world.wf(),
            before == old(world)@,
            first == old(world).next_id(),
            allowed == (Placement::Ball { center, radius, y_min }),
            spawned <= count,
            world.next_id() == first + spawned,
            batch_spawned(before, world@, first, spawned as int, allowed),
        decreases count - spawned,
    {
        let position = draw_in_ball(&mut rng, center, radius, y_min);
        let ghost previous = world@;
        match spawn_single_particle(world, position) {
            Some(_) => {
                proof {
                    assert(admits(allowed, position));
                    assert(world@.drop_last() =~= previous);
                    lemma_batch_grows(before, previous, world@, first, spawned as int, allowed);
                }
                spawned += 1;
            },
            None => {
                return spawned;
            },
        }
    }
    spawned
}

/// Adds `count` particles at random places in the axis-aligned box of the
/// given size around `center`, none lower than `y_min`, as far as
/// identities last. A negative edge length counts as zero. Returns how many
/// were added.
pub fn spawn_particles_in_cube(
    world: &mut ParticleWorld,
    center: Vec3,
    size: Vec3,
    y_min: i64,
    count: usize,
) -> (spawned: usize)
    requires
        old(world).wf(),
    ensures
        final(world).wf(),
        spawned == room_for(*old(world), count as int),
        final(world).next_id() == old(world).next_id() + spawned,
        batch_spawned(
            old(world)@,
            final(world)@,
            old(world).next_id(),
            spawned as int,
            Placement::Cube { center, size, y_min },
        ),
{
    let ghost before = world@;
    let ghost first = world.next_id();
    let ghost allowed = Placement::Cube { center, size, y_min };
    let half = Vec3 { x: half_length(size.x), y: half_length(size.y), z: half_length(size.z) };
    let mut rng = rand::thread_rng();
    let mut spawned: usize = 0;
    assert(before.take(before.len() as int) =~= before);
    while spawned < count
        invariant
            world.wf(),
            before == old(world)@,
            first == old(world).next_id(),
            allowed == (Placement::Cube { center, size, y_min }),
            half == half_extent(size),
            spawned <= count,
            world.next_id() == first + spawned,
            batch_spawned(before, world@, first, spawned as int, allowed),
        decreases count - spawned,
    {
        let x: i64 = random_between(&mut rng, -half.x, half.x);
        let y: i64 = random_between(&mut rng, -half.y, half.y);
        let z: i64 = random_between(&mut rng, -half.z, half.z);
        let offset = Vec3 { x, y, z };
        let position = place_at_offset(center, offset, y_min);
        let ghost previous = world@;
        match spawn_single_particle(world, position) {
            Some(_) => {
                proof {
                    assert(in_box(offset, half_extent(size)));
                    assert(position == placed(center, offset, y_min));
                    assert(admits(allowed, position));
                    assert(world@.drop_last() =~= previous);
                    lemma_batch_grows(before, previous, world@, first, spawned as int, allowed);
                }
                spawned += 1;
            },
            None => {
                return spawned;
            },
        }
    }
    spawned
}

/// The placement that the controls ask for.
pub open spec fn requested_placement(
    creation_state: ParticleCreationState,
    bounds_state: Option<ParticleBoundsState>,
) -> Placement {
    match creation_state.placement_mode {
        ParticlePlacementMode::Random => Placement::Volume { bounds: effective_bounds(bounds_state) },
        ParticlePlacementMode::Ball => Placement::Ball {
            center: creation_state.ball_center,
            radius: creation_state.ball_radius,
            y_min: creation_state.y_min,
        },
        ParticlePlacementMode::Cube => Placement::Cube {
            center: creation_state.cube_center,
            size: creation_state.cube_size,
            y_min: creation_state.y_min,
        },
    }
}

/// Serves a pending request to create particles: adds a batch of
/// `batch_count` particles laid out as the placement mode says, and takes
/// the request back. Without a request nothing happens. Returns how many
/// particles were added.
pub fn handle_particle_creation(
    world: &mut ParticleWorld,
    creation_state: &mut ParticleCreationState,
    bounds_state: Option<&ParticleBoundsState>,
) -> (spawned: usize)
    requires
        old(world).wf(),
    ensures
        final(world).wf(),
        *final(creation_state) == (ParticleCreationState {
            create_requested: false,
            ..*old(creation_state)
        }),
        !old(creation_state).create_requested ==> spawned == 0 && *final(world) == *old(world),
        old(creation_state).create_requested ==> {
            &&& spawned == room_for(*old(world), old(creation_state).batch_count as int)
            &&& final(world).next_id() == old(world).next_id() + spawned
            &&& batch_spawned(
                old(world)@,
                final(world)@,
                old(world).next_id(),
                spawned as int,
                requested_placement(
                    *old(creation_state),
                    match bounds_state {
                        Some(b) => Some(*b),
                        None => None,
                    },
                ),
            )
        },
{
    if !creation_state.create_requested {
        return 0;
    }
    creation_state.create_requested = false;
    match creation_state.placement_mode {
        ParticlePlacementMode::Random => spawn_particles_random(
            world,
            bounds_state,
            creation_state.batch_count,
        ),
        ParticlePlacementMode::Ball => spawn_particles_in_ball(
            world,
            creation_state.ball_center,
            creation_state.ball_radius,
            creation_state.y_min,
            creation_state.batch_count,
        ),
        ParticlePlacementMode::Cube => spawn_particles_in_cube(
            world,
            creation_state.cube_center,
            creation_state.cube_size,
            creation_state.y_min,
            creation_state.batch_count,
        ),
    }
}

/// Serves a pending request to remove particles. A request to remove all
/// empties the arena; it goes first, and a request to remove the selected
/// ones made at the same time stays pending. A request to remove the
/// selected particles removes exactly those. Either way no removed
/// particle stays in the selection, which is empty afterwards.
pub fn handle_particle_removal(
    world: &mut ParticleWorld,
    creation_state: &mut ParticleCreationState,
)
    requires
        old(world).wf(),
    ensures
        final(world).wf(),
        final(world).next_id() == old(world).next_id(),
        old(creation_state).remove_all_requested ==> final(world)@ == Seq::<Particle>::empty()
            && *final(creation_state) == (ParticleCreationState {
            remove_all_requested: false,
            ..*old(creation_state)
        }),
        !old(creation_state).remove_all_requested && old(creation_state).remove_selected_requested
            ==> final(world)@ == unselected(old(world)@) && *final(creation_state) == (
        ParticleCreationState { remove_selected_requested: false, ..*old(creation_state) }),
        !old(creation_state).remove_all_requested && !old(creation_state).remove_selected_requested ==> final(world)@ == old(world)@ && *final(creation_state)
            == *old(creation_state),
{
    if creation_state.remove_all_requested {
        creation_state.remove_all_requested = false;
        world.clear();
    } else if creation_state.remove_selected_requested {
        creation_state.remove_selected_requested = false;
        world.remove_selected();
    }
}

/// A batch with one more fresh particle pushed is a batch.
proof fn lemma_batch_grows(
    before: Seq<Particle>,
    previous: Seq<Particle>,
    next: Seq<Particle>,
    first_entity: u64,
    count: int,
    allowed: Placement,
)
    requires
        batch_spawned(before, previous, first_entity, count, allowed),
        count >= 0,
        first_entity + count <= u64::MAX,
        next.len() == previous.len() + 1,
        next.drop_last() == previous,
        next.last() == fresh_particle(
            (first_entity + count) as u64,
            next.last().translation,
            spec_middle(),
        ),
        admits(allowed, next.last().translation),
    ensures
        batch_spawned(before, next, first_entity, count + 1, allowed),
{
    assert(next.take(before.len() as int) =~= previous.take(before.len() as int));
    assert forall|k: int| before.len() <= k < next.len() implies (#[trigger] next[k])
        == fresh_particle(
        (first_entity + (k - before.len())) as u64,
        next[k].translation,
        spec_middle(),
    ) && admits(allowed, next[k].translation) by {
        if k < previous.len() {
            assert(next[k] == previous[k]);
        }
    }
}

} // verus!
