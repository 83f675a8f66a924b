//! Passes over all particles: projection under the bounds volume, the
//! group transform, and picking a particle with a click.

use vstd::prelude::*;
use crate::components::{MouseButtonState, ParticleBoundsState, ParticleGroupState};
use crate::coords::{apply_group_transform, group_position, to_world, world_position};
use crate::ray::{raycast_particle, Ray3d};
use crate::screen::{find_camera, first_camera, physical, to_physical, viewports, viewports_of, CameraView};
use crate::vector::Vec2;
use crate::world::{contains_entity, Particle, ParticleMaterial, ParticleWorld};

verus! {

/// Every particle of `s` moved to where its normalized position lies under `bounds`.
pub open spec fn reprojected(s: Seq<Particle>, bounds: ParticleBoundsState) -> Seq<Particle> {
    s.map_values(
        |p: Particle| Particle { translation: world_position(p.base_position, bounds), ..p },
    )
}

/// Every particle of `s` moved to where the group transform puts its
/// projection under `bounds`.
pub open spec fn group_placed(
    s: Seq<Particle>,
    bounds: ParticleBoundsState,
    group: ParticleGroupState,
) -> Seq<Particle> {
    s.map_values(
        |p: Particle|
            Particle {
                translation: group_position(
                    world_position(p.base_position, bounds),
                    group.scale,
                    group.offset,
                ),
                ..p
            },
    )
}

/// When the extents of the bounds volume changed since the last call,
/// projects every particle anew from its normalized position and records the
/// extents. Normalized positions are never touched, so the relative layout
/// survives a resize.
pub fn update_particle_bounds(world: &mut ParticleWorld, bounds_state: &mut ParticleBoundsState)
    requires
        old(world).wf(),
    ensures
        final(world).wf(),
        final(world).next_id() == old(world).next_id(),
        old(bounds_state).changed() ==> final(world)@ == reprojected(
            old(world)@,
            *old(bounds_state),
        ),
        !old(bounds_state).changed() ==> final(world)@ == old(world)@,
        *final(bounds_state) == old(bounds_state).acknowledged(),
{
    let bounds: ParticleBoundsState = *bounds_state;
    if bounds.bounds_x != bounds.previous_bounds_x || bounds.bounds_z != bounds.previous_bounds_z
        || bounds.bounds_y_height != bounds.previous_bounds_y_height {
        let ghost before = world@;
        let n: usize = world.len();
        let mut i: usize = 0;
        while i < n
            invariant
                world.wf(),
                world.next_id() == old(world).next_id(),
                before == old(world)@,
                world@.len() == n,
                before.len() == n,
                i <= n,
                forall|k: int|
                    0 <= k < i ==> world@[k] == (Particle {
                        translation: world_position(before[k].base_position, bounds),
                        ..before[k]
                    }),
                forall|k: int| i <= k < n ==> world@[k] == before[k],
            decreases n - i,
        {
            let p: Particle = world.particle(i);
            world.set_translation(i, to_world(p.base_position, &bounds));
            i += 1;
        }
        assert(world@ =~= reprojected(before, bounds));
        bounds_state.previous_bounds_x = bounds.bounds_x;
        bounds_state.previous_bounds_z = bounds.bounds_z;
        bounds_state.previous_bounds_y_height = bounds.bounds_y_height;
    }
}

/// When the group offset or scale changed since the last call, places every
/// particle at its projection under `bounds_state`, scaled and then offset,
/// and records the values used.
pub fn update_particle_group_transform(
    world: &mut ParticleWorld,
    group_state: &mut ParticleGroupState,
    bounds_state: &ParticleBoundsState,
)
    requires
        old(world).wf(),
    ensures
        final(world).wf(),
        final(world).next_id() == old(world).next_id(),
        old(group_state).changed() ==> final(world)@ == group_placed(
            old(world)@,
            *bounds_state,
            *old(group_state),
        ),
        !old(group_state).changed() ==> final(world)@ == old(world)@,
        *final(group_state) == old(group_state).acknowledged(),
{
    let group: ParticleGroupState = *group_state;
    if group.offset != group.previous_offset || group.scale != group.previous_scale {
        let ghost before = world@;
        let n: usize = world.len();
        let mut i: usize = 0;
        while i < n
            invariant
                world.wf(),
                world.next_id() == old(world).next_id(),
                before == old(world)@,
                world@.len() == n,
                before.len() == n,
                i <= n,
                forall|k: int|
                    0 <= k < i ==> world@[k] == (Particle {
                        translation: group_position(
                            world_position(before[k].base_position, *bounds_state),
                            group.scale,
                            group.offset,
                        ),
                        ..before[k]
                    }),
                forall|k: int| i <= k < n ==> world@[k] == before[k],
            decreases n - i,
        {
            let p: Particle = world.particle(i);
            let base_world = to_world(p.base_position, bounds_state);
            world.set_translation(i, apply_group_transform(base_world, group.scale, group.offset));
            i += 1;
        }
        assert(world@ =~= group_placed(before, *bounds_state, group));
        group_state.previous_offset = group.offset;
        group_state.previous_scale = group.scale;
    }
}

/// In the order in which a pick tries the particles, `i` comes before `j`:
/// unselected particles come first, and within each group the arena's order holds.
pub open spec fn tried_before(s: Seq<Particle>, i: int, j: int) -> bool {
    (!s[i].selected && s[j].selected) || (s[i].selected == s[j].selected && i < j)
}

/// For a pick along `ray`, the particle at `i` wins against the one at `j`:
/// it is nearer to the ray's origin, or as near and tried earlier.
pub open spec fn beats(s: Seq<Particle>, ray: Ray3d, i: int, j: int) -> bool {
    let ti = ray.projection(s[i].translation);
    let tj = ray.projection(s[j].translation);
    ti < tj || (ti == tj && tried_before(s, i, j))
}

/// The particle at `i` is hit by `ray` and wins against every other particle hit.
pub open spec fn is_closest_hit(s: Seq<Particle>, ray: Ray3d, i: int) -> bool {
    &&& 0 <= i < s.len()
    &&& ray.hits(s[i].translation)
    &&& forall|j: int|
        0 <= j < s.len() && j != i && ray.hits(#[trigger] s[j].translation) ==> beats(s, ray, i, j)
}

/// Where in `s` the particle picked by `ray` sits, if the ray hits any.
pub open spec fn closest_hit(s: Seq<Particle>, ray: Ray3d) -> Option<int> {
    if exists|i: int| is_closest_hit(s, ray, i) {
        Some(choose|i: int| is_closest_hit(s, ray, i))
    } else {
        None
    }
}

/// At most one particle is the closest hit.
pub proof fn lemma_closest_hit_unique(s: Seq<Particle>, ray: Ray3d, i: int, j: int)
    requires
        is_closest_hit(s, ray, i),
        is_closest_hit(s, ray, j),
    ensures
        i == j,
{
    if i != j {
        assert(beats(s, ray, i, j));
        assert(beats(s, ray, j, i));
    }
}

/// Among the first `n` particles of `s`, the one at `i` is hit and wins
/// against every other one hit.
spec fn is_closest_within(s: Seq<Particle>, ray: Ray3d, i: int, n: int) -> bool {
    &&& 0 <= i < n
    &&& ray.hits(s[i].translation)
    &&& forall|j: int|
        0 <= j < n && j != i && ray.hits(#[trigger] s[j].translation) ==> beats(s, ray, i, j)
}

/// Whenever one of the first `n` particles is hit, one of them is the
/// closest hit among them.
proof fn lemma_closest_within_exists(s: Seq<Particle>, ray: Ray3d, n: int, hit: int)
    requires
        0 <= hit < n <= s.len(),
        ray.hits(s[hit].translation),
    ensures
        exists|i: int| is_closest_within(s, ray, i, n),
    decreases n,
{
    let last = n - 1;
    if exists|j: int| 0 <= j < last && ray.hits(#[trigger] s[j].translation) {
        let j = choose|j: int| 0 <= j < last && ray.hits(#[trigger] s[j].translation);
        lemma_closest_within_exists(s, ray, last, j);
        let best = choose|i: int| is_closest_within(s, ray, i, last);
        if !ray.hits(s[last].translation) {
            assert(is_closest_within(s, ray, best, n));
        } else if beats(s, ray, last, best) {
            assert forall|k: int|
                0 <= k < n && k != last && ray.hits(#[trigger] s[k].translation) implies beats(
                s,
                ray,
                last,
                k,
            ) by {
                if k != best {
                    assert(beats(s, ray, best, k));
                }
            }
            assert(is_closest_within(s, ray, last, n));
        } else {
            assert(beats(s, ray, best, last));
            assert(is_closest_within(s, ray, best, n));
        }
    } else {
        assert(hit == last);
        assert(is_closest_within(s, ray, last, n));
    }
}

/// A pick is decided by the particles and the ray alone, and it finds a
/// particle whenever the ray hits one: the particle picked is hit, and no
/// particle hit is nearer to the ray's origin.
pub proof fn lemma_some_hit_is_picked(s: Seq<Particle>, ray: Ray3d, hit: int)
    requires
        0 <= hit < s.len(),
        ray.hits(s[hit].translation),
    ensures
        closest_hit(s, ray).is_some(),
        is_closest_hit(s, ray, closest_hit(s, ray).unwrap()),
        ray.projection(s[closest_hit(s, ray).unwrap()].translation) <= ray.projection(
            s[hit].translation,
        ),
{
    lemma_closest_within_exists(s, ray, s.len() as int, hit);
    let i = choose|i: int| is_closest_within(s, ray, i, s.len() as int);
    assert(is_closest_hit(s, ray, i));
    let picked = closest_hit(s, ray).unwrap();
    if picked != hit {
        assert(beats(s, ray, picked, hit));
    }
}

/// A ray that passes through the sphere of exactly one particle picks
/// that particle.
pub proof fn lemma_single_hit_is_picked(s: Seq<Particle>, ray: Ray3d, i: int)
    requires
        0 <= i < s.len(),
        ray.hits(s[i].translation),
        forall|j: int| 0 <= j < s.len() && j != i ==> !ray.hits(#[trigger] s[j].translation),
    ensures
        closest_hit(s, ray) == Some(i),
        picked(s, ray) == s.update(i, toggled(s[i])),
{
    assert(is_closest_hit(s, ray, i));
    lemma_closest_hit_unique(s, ray, i, choose|k: int| is_closest_hit(s, ray, k));
}

/// Of two particles whose spheres the ray passes through, the farther one
/// is never picked; and when the ray hits no third particle, the nearer
/// one is.
pub proof fn lemma_nearer_hit_is_picked(s: Seq<Particle>, ray: Ray3d, near: int, far: int)
    requires
        0 <= near < s.len(),
        0 <= far < s.len(),
        ray.hits(s[near].translation),
        ray.hits(s[far].translation),
        ray.projection(s[near].translation) < ray.projection(s[far].translation),
    ensures
        closest_hit(s, ray).is_some(),
        closest_hit(s, ray) != Some(far),
        (forall|j: int|
            0 <= j < s.len() && j != near && j != far ==> !ray.hits(#[trigger] s[j].translation))
            ==> closest_hit(s, ray) == Some(near),
{
    lemma_some_hit_is_picked(s, ray, near);
    let picked = closest_hit(s, ray).unwrap();
    if picked == far {
        assert(beats(s, ray, far, near));
    }
    if forall|j: int|
        0 <= j < s.len() && j != near && j != far ==> !ray.hits(#[trigger] s[j].translation) {
        assert(is_closest_hit(s, ray, near));
        lemma_closest_hit_unique(s, ray, near, picked);
    }
}

/// Finds the particle that a pick along `ray` selects: of all particles
/// whose sphere the ray passes through in front of its origin, the one
/// nearest to the origin; of several equally near, the first in the order
/// in which a pick tries them. Returns its identity.
pub fn find_closest_particle_hit(ray: &Ray3d, world: &ParticleWorld) -> (found: Option<u64>)
    requires
        ray.wf(),
        world.wf(),
    ensures
        match found {
            Some(entity) => closest_hit(world@, *ray).is_some() && world@[closest_hit(
                world@,
                *ray,
            ).unwrap()].entity == entity,
            None => closest_hit(world@, *ray).is_none() && forall|k: int|
                0 <= k < world@.len() ==> !ray.hits(#[trigger] world@[k].translation),
        },
{
    match closest_hit_index(ray, world) {
        Some(i) => Some(world.particle(i).entity),
        None => None,
    }
}

/// The place in the arena of the particle that a pick along `ray` selects.
fn closest_hit_index(ray: &Ray3d, world: &ParticleWorld) -> (found: Option<usize>)
    requires
        ray.wf(),
        world.wf(),
    ensures
        match found {
            Some(i) => closest_hit(world@, *ray) == Some(i as int) && is_closest_hit(
                world@,
                *ray,
                i as int,
            ),
            None => closest_hit(world@, *ray).is_none() && forall|k: int|
                0 <= k < world@.len() ==> !ray.hits(#[trigger] world@[k].translation),
        },
{
    let n: usize = world.len();
    let mut best: Option<(usize, i64)> = None;
    let mut i: usize = 0;
    while i < n
        invariant
            ray.wf(),
            world.wf(),
            n == world@.len(),
            i <= n,
            best.is_none() ==> forall|k: int|
                0 <= k < i && !world@[k].selected ==> !ray.hits(#[trigger] world@[k].translation),
            best matches Some((b, t)) ==> {
                &&& b < i
                &&& !world@[b as int].selected
                &&& ray.hits(world@[b as int].translation)
                &&& t == ray.projection(world@[b as int].translation)
                &&& forall|k: int|
                    0 <= k < i && k != b && !world@[k].selected && ray.hits(
                        #[trigger] world@[k].translation,
                    ) ==> beats(world@, *ray, b as int, k)
            },
        decreases n - i,
    {
        let p: Particle = world.particle(i);
        assert(world@[i as int].wf());
        if !p.selected {
            match raycast_particle(ray, p.translation) {
                Some(t) => {
                    match best {
                        Some((_, bt)) => {
                            if t < bt {
                                best = Some((i, t));
                            }
                        },
                        None => {
                            best = Some((i, t));
                        },
                    }
                },
                None => {},
            }
        }
        i += 1;
    }
    let mut j: usize = 0;
    while j < n
        invariant
            ray.wf(),
            world.wf(),
            n == world@.len(),
            j <= n,
            best.is_none() ==> forall|k: int|
                0 <= k < n && (!world@[k].selected || k < j) ==> !ray.hits(
                    #[trigger] world@[k].translation,
                ),
            best matches Some((b, t)) ==> {
                &&& b < n
                &&& (world@[b as int].selected ==> b < j)
                &&& ray.hits(world@[b as int].translation)
                &&& t == ray.projection(world@[b as int].translation)
                &&& forall|k: int|
                    0 <= k < n && k != b && (!world@[k].selected || k < j) && ray.hits(
                        #[trigger] world@[k].translation,
                    ) ==> beats(world@, *ray, b as int, k)
            },
        decreases n - j,
    {
        let p: Particle = world.particle(j);
        assert(world@[j as int].wf());
        if p.selected {
            match raycast_particle(ray, p.translation) {
                Some(t) => {
                    match best {
                        Some((_, bt)) => {
                            if t < bt {
                                best = Some((j, t));
                            }
                        },
                        None => {
                            best = Some((j, t));
                        },
                    }
                },
                None => {},
            }
        }
        j += 1;
    }
    match best {
        Some((b, _)) => {
            proof {
                assert(is_closest_hit(world@, *ray, b as int));
                let chosen = choose|i: int| is_closest_hit(world@, *ray, i);
                lemma_closest_hit_unique(world@, *ray, b as int, chosen);
            }
            Some(b)
        },
        None => {
            assert forall|i: int| !is_closest_hit(world@, *ray, i) by {
                if 0 <= i < world@.len() {
                    assert(!ray.hits(world@[i].translation));
                }
            }
            None
        },
    }
}

/// A particle with its selection flipped: a selected one leaves the
/// selection and turns white, an unselected one joins it and turns green.
pub open spec fn toggled(p: Particle) -> Particle {
    if p.selected {
        Particle { selected: false, material: ParticleMaterial::White, ..p }
    } else {
        Particle { selected: true, material: ParticleMaterial::Green, ..p }
    }
}

/// Flips the selection of the particle `entity`, membership and colour
/// together. An `entity` that is not alive changes nothing.
pub fn toggle_particle_selection(entity: u64, world: &mut ParticleWorld)
    requires
        old(world).wf(),
    ensures
        final(world).wf(),
        final(world).next_id() == old(world).next_id(),
        final(world)@ == old(world)@.map_values(
            |p: Particle|
                if p.entity == entity {
                    toggled(p)
                } else {
                    p
                },
        ),
{
    let ghost before = world@;
    match world.index_of(entity) {
        Some(i) => {
            toggle_at(i, world);
            assert forall|k: int| 0 <= k < before.len() && k != i implies before[k].entity
                != entity by {
                if k < i {
                    assert(before[k].entity < before[i as int].entity);
                } else {
                    assert(before[i as int].entity < before[k].entity);
                }
            }
        },
        None => {
            assert forall|k: int| 0 <= k < before.len() implies before[k].entity != entity by {
                if before[k].entity == entity {
                    assert(contains_entity(before, entity));
                }
            }
        },
    }
    assert(world@ =~= before.map_values(
        |p: Particle|
            if p.entity == entity {
                toggled(p)
            } else {
                p
            },
    ));
}

fn toggle_at(index: usize, world: &mut ParticleWorld)
    requires
        old(world).wf(),
        index < old(world)@.len(),
    ensures
        final(world).wf(),
        final(world).next_id() == old(world).next_id(),
        final(world)@ == old(world)@.update(index as int, toggled(old(world)@[index as int])),
{
    let p: Particle = world.particle(index);
    if p.selected {
        world.set_selected(index, false, ParticleMaterial::White);
    } else {
        world.set_selected(index, true, ParticleMaterial::Green);
    }
}

/// `s` after a pick along `ray`: the closest particle hit has its selection
/// flipped; when nothing is hit, nothing changes.
pub open spec fn picked(s: Seq<Particle>, ray: Ray3d) -> Seq<Particle> {
    match closest_hit(s, ray) {
        Some(i) => s.update(i, toggled(s[i])),
        None => s,
    }
}

/// The ray of the click, if there is one: the left button was just
/// released, the cursor is in the window and inside the viewport of some
/// camera, and the first such camera can form a ray through the cursor.
/// The ray is saturated into the range that the hit test works in.
pub open spec fn click_ray(
    button_state: MouseButtonState,
    cursor: Option<Vec2>,
    scale_factor: i64,
    cameras: Seq<CameraView>,
) -> Option<Ray3d> {
    if button_state.left_released() && cursor.is_some() {
        match first_camera(
            viewports_of(cameras),
            physical(cursor.unwrap().x as int, scale_factor as int),
            physical(cursor.unwrap().y as int, scale_factor as int),
            false,
        ) {
            Some(c) => match cameras[c].pick_ray {
                Some(ray) => Some(ray.saturated()),
                None => None,
            },
            None => None,
        }
    } else {
        None
    }
}

/// Handles a click: on release of the left button over a camera's viewport,
/// casts that camera's ray through the cursor and flips the selection of the
/// closest particle hit. Returns the particle whose selection was flipped.
pub fn handle_particle_selection(
    world: &mut ParticleWorld,
    button_state: &MouseButtonState,
    cursor: Option<Vec2>,
    scale_factor: i64,
    cameras: &Vec<CameraView>,
) -> (flipped: Option<u64>)
    requires
        old(world).wf(),
    ensures
        final(world).wf(),
        final(world).next_id() == old(world).next_id(),
        match click_ray(*button_state, cursor, scale_factor, cameras@) {
            Some(ray) => final(world)@ == picked(old(world)@, ray) && flipped == (match closest_hit(
                old(world)@,
                ray,
            ) {
                Some(i) => Some(old(world)@[i].entity),
                None => None,
            }),
            None => final(world)@ == old(world)@ && flipped.is_none(),
        },
{
    if !(button_state.left_was_pressed && !button_state.left_pressed) {
        return None;
    }
    let cursor_pos = match cursor {
        Some(c) => c,
        None => { return None; },
    };
    let px: i128 = to_physical(cursor_pos.x, scale_factor);
    let py: i128 = to_physical(cursor_pos.y, scale_factor);
    let rects = viewports(cameras);
    let camera: usize = match find_camera(&rects, px, py, false) {
        Some(c) => c,
        None => { return None; },
    };
    let ray = match cameras[camera].pick_ray {
        Some(r) => Ray3d::new(r.origin, r.direction),
        None => { return None; },
    };
    match closest_hit_index(&ray, world) {
        Some(i) => {
            let entity: u64 = world.particle(i).entity;
            toggle_at(i, world);
            Some(entity)
        },
        None => None,
    }
}

} // verus!
