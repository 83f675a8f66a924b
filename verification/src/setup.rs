//! The initial scene.

use vstd::prelude::*;
use crate::components::{GridState, ParticleBoundsState};
use crate::constants::{PARTICLE_COUNT, PARTICLE_GRID_BOUNDS};
use crate::coords::{to_world, world_position};
use crate::fixed::ONE;
use crate::systems::grid::{grid_lines, layout_grid, GridLine};
use crate::systems::particle_creation::{effective_bounds, room_for};
use crate::vector::Vec3;
use crate::world::{fresh_particle, Particle, ParticleWorld};

verus! {

/// The normalized position of the `i`-th initial particle: hundredths that
/// step through the volume at a different stride on every axis.
pub open spec fn seeded_position(i: int) -> Vec3 {
    Vec3 {
        x: (((i * 17 + 7) % 100) * 10_000) as i64,
        y: (((i * 13 + 3) % 100) * 10_000) as i64,
        z: (((i * 23 + 11) % 100) * 10_000) as i64,
    }
}

/// `after` is `before` followed by the first `count` initial particles,
/// with consecutive identities from `first_entity`, each where its
/// normalized position lies under `bounds`.
pub open spec fn initial_spawned(
    before: Seq<Particle>,
    after: Seq<Particle>,
    first_entity: u64,
    count: int,
    bounds: ParticleBoundsState,
) -> bool {
    &&& after.len() == before.len() + count
    &&& after.take(before.len() as int) == before
    &&& forall|k: int|
        0 <= k < count ==> (#[trigger] after[before.len() + k]) == fresh_particle(
            (first_entity + k) as u64,
            world_position(seeded_position(k), bounds),
            seeded_position(k),
        )
}

/// Adds the `PARTICLE_COUNT` initial particles, as far as identities
/// last, laid out on the bounds volume given or on a volume of
/// `PARTICLE_GRID_BOUNDS` by `PARTICLE_GRID_BOUNDS`, 1 m high. Returns how
/// many were added.
pub fn spawn_particles(world: &mut ParticleWorld, bounds_state: Option<&ParticleBoundsState>) -> (spawned:
    usize)
    requires
        old(world).wf(),
    ensures
        final(world).wf(),
        spawned == room_for(*old(world), PARTICLE_COUNT as int),
        final(world).next_id() == old(world).next_id() + spawned,
        initial_spawned(
            old(world)@,
            final(world)@,
            old(world).next_id(),
            spawned as int,
            effective_bounds(
                match bounds_state {
                    Some(b) => Some(*b),
                    None => None,
                },
            ),
        ),
{
    let bounds: ParticleBoundsState = match bounds_state {
        Some(b) => *b,
        None => ParticleBoundsState {
            bounds_x: PARTICLE_GRID_BOUNDS,
            bounds_z: PARTICLE_GRID_BOUNDS,
            bounds_y_height: ONE,
            previous_bounds_x: PARTICLE_GRID_BOUNDS,
            previous_bounds_z: PARTICLE_GRID_BOUNDS,
            previous_bounds_y_height: ONE,
        },
    };
    let ghost before = world@;
    let ghost first = world.next_id();
    let mut i: usize = 0;
    assert(before.take(before.len() as int) =~= before);
    while i < PARTICLE_COUNT
        invariant
            world.wf(),
            before == old(world)@,
            first == old(world).next_id(),
            bounds == effective_bounds(
                match bounds_state {
                    Some(b) => Some(*b),
                    None => None,
                },
            ),
            i <= PARTICLE_COUNT,
            world.next_id() == first + i,
            initial_spawned(before, world@, first, i as int, bounds),
        decreases PARTICLE_COUNT - i,
    {
        let normalized = Vec3 {
            x: (((i * 17 + 7) % 100) * 10_000) as i64,
            y: (((i * 13 + 3) % 100) * 10_000) as i64,
            z: (((i * 23 + 11) % 100) * 10_000) as i64,
        };
        assert(normalized == seeded_position(i as int));
        let position = to_world(normalized, &bounds);
        let ghost previous = world@;
        match world.spawn(position, normalized) {
            Some(_) => {
                proof {
                    assert(world@.take(before.len() as int) =~= previous.take(before.len() as int));
                    assert forall|k: int| 0 <= k < i + 1 implies (#[trigger] world@[before.len()
                        + k]) == fresh_particle(
                        (first + k) as u64,
                        world_position(seeded_position(k), bounds),
                        seeded_position(k),
                    ) by {
                        if k < i {
                            assert(world@[before.len() + k] == previous[before.len() + k]);
                        }
                    }
                }
                i += 1;
            },
            None => {
                return i;
            },
        }
    }
    i
}

/// The lines of the initial ground grid: of the size given, or of 10 m by 10 m.
pub fn spawn_grid(grid_state: Option<&GridState>) -> (lines: Vec<GridLine>)
    ensures
        lines@ == (match grid_state {
            Some(g) => grid_lines(g.size_x as int, g.size_z as int),
            None => grid_lines(10, 10),
        }),
{
    match grid_state {
        Some(g) => layout_grid(g.size_x, g.size_z),
        None => layout_grid(10, 10),
    }
}

} // verus!
