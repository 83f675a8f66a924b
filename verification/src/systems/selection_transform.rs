//! The transform of the selection: a per-axis scale about the centroid of
//! the positions that the members had when the selection last changed,
//! followed by an offset.

use std::collections::hash_map::DefaultHasher;
use std::hash::Hasher;
use vstd::bytes::{spec_u64_to_le_bytes, u64_to_le_bytes};
use vstd::prelude::*;
use vstd::std_specs::hash::DefaultHasherAdditionalSpecFns;
use crate::fixed::{
    clamp_coord, div_floor, in_range, mul_scaled, saturate, scaled, COORD_MAX, ONE,
};
use crate::vector::{component, Vec3};
use crate::world::{
    any_selected, entities_increasing, selected_ids, selection_set, Particle, ParticleWorld,
};

verus! {

/// What is fed to the hasher for the identities `ids`: their number, then
/// each of them, as eight bytes each.
pub open spec fn hash_input(ids: Seq<u64>) -> Seq<Seq<u8>> {
    seq![spec_u64_to_le_bytes(ids.len() as u64)] + ids.map_values(
        |e: u64| spec_u64_to_le_bytes(e),
    )
}

/// The hash that stands for a selection with the members `ids`.
pub open spec fn selection_hash(ids: Seq<u64>) -> u64 {
    DefaultHasher::spec_finish(hash_input(ids))
}

/// Hashes the identities `ids`.
pub fn hash_selection(ids: &Vec<u64>) -> (hash: u64)
    ensures
        hash == selection_hash(ids@),
{
    let n: usize = ids.len();
    let mut hasher = DefaultHasher::new();
    let count = u64_to_le_bytes(n as u64);
    hasher.write(count.as_slice());
    let mut i: usize = 0;
    while i < n
        invariant
            n == ids@.len(),
            i <= n,
            hasher@ == hash_input(ids@).take(i + 1),
        decreases n - i,
    {
        let bytes = u64_to_le_bytes(ids[i]);
        hasher.write(bytes.as_slice());
        assert(hasher@ =~= hash_input(ids@).take(i + 2));
        i += 1;
    }
    assert(hasher@ =~= hash_input(ids@));
    hasher.finish()
}

/// The position that a particle had when the selection last changed.
#[derive(Clone, Copy, Debug, PartialEq, Eq, Structural)]
pub struct OriginalPosition {
    pub entity: u64,
    pub position: Vec3,
}

/// The transform of the selection and what it is applied to.
pub struct SelectionTransformState {
    /// Offset added to every member of the selection.
    pub position_offset: Vec3,
    /// Per-axis scale about the centroid of the original positions.
    pub scale: Vec3,
    /// The offset and scale last applied.
    pub previous_position_offset: Vec3,
    pub previous_scale: Vec3,
    /// Where each member was when the selection last changed, in increasing
    /// order of identity.
    pub original_selection_positions: Vec<OriginalPosition>,
    /// The hash of the selection that the originals were recorded for.
    pub previous_selection_hash: u64,
}

/// Some entry of `originals` is for the particle `entity`.
pub open spec fn has_original(originals: Seq<OriginalPosition>, entity: u64) -> bool {
    exists|k: int| 0 <= k < originals.len() && (#[trigger] originals[k]).entity == entity
}

/// The original position recorded for the particle `entity`.
pub open spec fn original_of(originals: Seq<OriginalPosition>, entity: u64) -> Vec3 {
    originals[choose|k: int| 0 <= k < originals.len() && (#[trigger] originals[k]).entity == entity].position
}

/// Entities strictly increase along the sequence, and positions are in range.
pub open spec fn originals_wf(originals: Seq<OriginalPosition>) -> bool {
    &&& forall|i: int, j: int|
        0 <= i < j < originals.len() ==> originals[i].entity < originals[j].entity
    &&& forall|i: int| 0 <= i < originals.len() ==> (#[trigger] originals[i]).position.in_range()
}

/// The transform applies to `p`: it is selected and has an original position.
pub open spec fn is_member(p: Particle, originals: Seq<OriginalPosition>) -> bool {
    p.selected && has_original(originals, p.entity)
}

/// Number of particles of `s` that the transform applies to.
pub open spec fn member_count(s: Seq<Particle>, originals: Seq<OriginalPosition>) -> nat
    decreases s.len(),
{
    if s.len() == 0 {
        0
    } else if is_member(s.last(), originals) {
        member_count(s.drop_last(), originals) + 1
    } else {
        member_count(s.drop_last(), originals)
    }
}

/// Sum, along one axis, of the original positions of the members among `s`.
pub open spec fn member_sum(s: Seq<Particle>, originals: Seq<OriginalPosition>, axis: int) -> int
    decreases s.len(),
{
    if s.len() == 0 {
        0
    } else if is_member(s.last(), originals) {
        member_sum(s.drop_last(), originals, axis) + component(
            original_of(originals, s.last().entity),
            axis,
        )
    } else {
        member_sum(s.drop_last(), originals, axis)
    }
}

/// The centroid of the members' original positions, each axis rounded down.
/// Meaningful only when there is a member.
pub open spec fn centroid(s: Seq<Particle>, originals: Seq<OriginalPosition>) -> Vec3 {
    let count = member_count(s, originals) as int;
    Vec3 {
        x: (member_sum(s, originals, 0) / count) as i64,
        y: (member_sum(s, originals, 1) / count) as i64,
        z: (member_sum(s, originals, 2) / count) as i64,
    }
}

/// One coordinate of a member after the transform: its original distance
/// from the centroid is scaled, and the offset added.
pub open spec fn transformed_axis(original: int, centroid: int, scale: int, offset: int) -> int {
    clamp_coord(centroid + scaled(original - centroid, scale) + offset)
}

/// The position of a member after the transform.
pub open spec fn transformed_position(
    original: Vec3,
    centroid: Vec3,
    scale: Vec3,
    offset: Vec3,
) -> Vec3 {
    Vec3 {
        x: transformed_axis(original.x as int, centroid.x as int, scale.x as int, offset.x as int) as i64,
        y: transformed_axis(original.y as int, centroid.y as int, scale.y as int, offset.y as int) as i64,
        z: transformed_axis(original.z as int, centroid.z as int, scale.z as int, offset.z as int) as i64,
    }
}

/// `s` with the transform applied: every member is placed relative to the
/// centroid of the members' original positions; every other particle
/// stays. The members' current positions play no part.
pub open spec fn selection_transformed(
    s: Seq<Particle>,
    originals: Seq<OriginalPosition>,
    scale: Vec3,
    offset: Vec3,
) -> Seq<Particle> {
    let c = centroid(s, originals);
    s.map_values(
        |p: Particle|
            if is_member(p, originals) {
                Particle {
                    translation: transformed_position(
                        original_of(originals, p.entity),
                        c,
                        scale,
                        offset,
                    ),
                    ..p
                }
            } else {
                p
            },
    )
}

/// The current positions of the selected particles of `s`, in the order of `s`.
pub open spec fn captured(s: Seq<Particle>) -> Seq<OriginalPosition>
    decreases s.len(),
{
    if s.len() == 0 {
        Seq::empty()
    } else if s.last().selected {
        captured(s.drop_last()).push(
            OriginalPosition { entity: s.last().entity, position: s.last().translation },
        )
    } else {
        captured(s.drop_last())
    }
}

impl SelectionTransformState {
    /// The original positions on record.
    pub open spec fn originals(&self) -> Seq<OriginalPosition> {
        self.original_selection_positions@
    }

    /// The record of original positions is well formed.
    pub open spec fn wf(&self) -> bool {
        originals_wf(self.originals())
    }
}

impl Default for SelectionTransformState {
    /// No offset, scale 1 on every axis, nothing on record.
    fn default() -> (s: Self)
        ensures
            s.wf(),
            s.position_offset == Vec3::zero(),
            s.scale == Vec3::one(),
            s.previous_position_offset == Vec3::zero(),
            s.previous_scale == Vec3::one(),
            s.originals() == Seq::<OriginalPosition>::empty(),
            s.previous_selection_hash == 0,
    {
        SelectionTransformState {
            position_offset: Vec3::zero(),
            scale: Vec3::one(),
            previous_position_offset: Vec3::zero(),
            previous_scale: Vec3::one(),
            original_selection_positions: Vec::new(),
            previous_selection_hash: 0,
        }
    }
}

fn find_original(originals: &Vec<OriginalPosition>, entity: u64) -> (found: Option<Vec3>)
    requires
        originals_wf(originals@),
    ensures
        match found {
            Some(v) => has_original(originals@, entity) && v == original_of(originals@, entity)
                && v.in_range(),
            None => !has_original(originals@, entity),
        },
{
    let n: usize = originals.len();
    let mut k: usize = 0;
    while k < n
        invariant
            n == originals@.len(),
            k <= n,
            originals_wf(originals@),
            forall|j: int| 0 <= j < k ==> (#[trigger] originals@[j]).entity != entity,
        decreases n - k,
    {
        if originals[k].entity == entity {
            proof {
                let chosen = choose|j: int|
                    0 <= j < originals@.len() && (#[trigger] originals@[j]).entity == entity;
                assert(originals@[k as int].entity == entity);
                if chosen < k {
                    assert(originals@[chosen].entity < originals@[k as int].entity);
                } else if chosen > k {
                    assert(originals@[k as int].entity < originals@[chosen].entity);
                }
            }
            return Some(originals[k].position);
        }
        k += 1;
    }
    None
}

/// Records the current positions of the selected particles.
fn capture(world: &ParticleWorld) -> (out: Vec<OriginalPosition>)
    requires
        world.wf(),
    ensures
        out@ == captured(world@),
        originals_wf(out@),
{
    let n: usize = world.len();
    let mut out: Vec<OriginalPosition> = Vec::new();
    let mut i: usize = 0;
    while i < n
        invariant
            world.wf(),
            n == world@.len(),
            i <= n,
            out@ == captured(world@.take(i as int)),
            originals_wf(out@),
            forall|k: int, j: int|
                0 <= k < out@.len() && i <= j < n ==> (#[trigger] out@[k]).entity < (
                #[trigger] world@[j]).entity,
        decreases n - i,
    {
        assert(world@.take(i + 1).drop_last() =~= world@.take(i as int));
        let p: Particle = world.particle(i);
        assert(world@[i as int].wf());
        if p.selected {
            out.push(OriginalPosition { entity: p.entity, position: p.translation });
        }
        i += 1;
    }
    assert(world@.take(n as int) =~= world@);
    out
}

/// Records the selection anew when its membership changed.
///
/// A change is recognised by the hash of the members' identities, taken in
/// increasing order, so that it depends on the set alone. When the hash
/// differs from the one on record, the current position of every selected
/// particle becomes its original position, and offset and scale go back to
/// zero and one. When the hash is the same, nothing changes.
pub fn update_selection_original_positions(
    transform_state: &mut SelectionTransformState,
    world: &ParticleWorld,
)
    requires
        world.wf(),
        old(transform_state).wf(),
    ensures
        final(transform_state).wf(),
        selection_hash(selected_ids(world@)) == old(transform_state).previous_selection_hash ==> *final(transform_state) == *old(transform_state),
        selection_hash(selected_ids(world@)) != old(transform_state).previous_selection_hash ==> {
            &&& final(transform_state).position_offset == Vec3::zero()
            &&& final(transform_state).scale == Vec3::one()
            &&& final(transform_state).previous_position_offset == Vec3::zero()
            &&& final(transform_state).previous_scale == Vec3::one()
            &&& final(transform_state).originals() == captured(world@)
            &&& final(transform_state).previous_selection_hash == selection_hash(selected_ids(world@))
        },
{
    let ids = world.selected_entities();
    let current_selection_hash: u64 = hash_selection(&ids);
    if current_selection_hash != transform_state.previous_selection_hash {
        transform_state.original_selection_positions = capture(world);
        transform_state.previous_selection_hash = current_selection_hash;
        transform_state.position_offset = Vec3::zero();
        transform_state.scale = Vec3::one();
        transform_state.previous_position_offset = Vec3::zero();
        transform_state.previous_scale = Vec3::one();
    }
}

/// A sum of `count` terms of magnitude at most `COORD_MAX`, divided by
/// `count`, has magnitude at most `COORD_MAX`.
proof fn lemma_mean_in_range(sum: int, count: int)
    by (nonlinear_arith)
    requires
        count > 0,
        -(count * COORD_MAX) <= sum <= count * COORD_MAX,
    ensures
        in_range(sum / count),
{
}

fn transform_axis(original: i64, centroid: i64, scale: i64, offset: i64) -> (r: i64)
    requires
        in_range(original as int),
        in_range(centroid as int),
    ensures
        r == transformed_axis(original as int, centroid as int, scale as int, offset as int),
        in_range(r as int),
{
    let delta: i64 = original - centroid;
    let wide: i128 = centroid as i128 + mul_scaled(delta, scale) + offset as i128;
    saturate(wide)
}

/// Places every member of the selection at the centroid of the members'
/// original positions, plus its original distance from the centroid scaled
/// axis by axis, plus the offset. Because the original positions are used
/// and not the current ones, a second call with the same offset and scale
/// puts every particle where the first call put it.
///
/// Records the offset and scale applied, provided that some particle is
/// selected and some original position is on record.
pub fn update_selection_transform(
    world: &mut ParticleWorld,
    transform_state: &mut SelectionTransformState,
)
    requires
        old(world).wf(),
        old(transform_state).wf(),
    ensures
        final(world).wf(),
        final(world).next_id() == old(world).next_id(),
        final(world)@ == selection_transformed(
            old(world)@,
            old(transform_state).originals(),
            old(transform_state).scale,
            old(transform_state).position_offset,
        ),
        final(transform_state).wf(),
        final(transform_state).position_offset == old(transform_state).position_offset,
        final(transform_state).scale == old(transform_state).scale,
        final(transform_state).originals() == old(transform_state).originals(),
        final(transform_state).previous_selection_hash == old(transform_state).previous_selection_hash,
        any_selected(old(world)@) && old(transform_state).originals().len() > 0 ==> {
            &&& final(transform_state).previous_position_offset == old(transform_state).position_offset
            &&& final(transform_state).previous_scale == old(transform_state).scale
        },
        !(any_selected(old(world)@) && old(transform_state).originals().len() > 0) ==> {
            &&& final(transform_state).previous_position_offset == old(transform_state).previous_position_offset
            &&& final(transform_state).previous_scale == old(transform_state).previous_scale
        },
{
    let ghost before = world@;
    let ghost originals = transform_state.originals();
    let scale = transform_state.scale;
    let offset = transform_state.position_offset;
    let n: usize = world.len();
    let mut count: usize = 0;
    let mut sum_x: i128 = 0;
    let mut sum_y: i128 = 0;
    let mut sum_z: i128 = 0;
    let mut selected_seen: bool = false;
    let mut i: usize = 0;
    while i < n
        invariant
            world.wf(),
            world@ == before,
            n == before.len(),
            i <= n,
            originals == transform_state.originals(),
            originals_wf(originals),
            count <= i,
            count == member_count(before.take(i as int), originals),
            sum_x == member_sum(before.take(i as int), originals, 0),
            sum_y == member_sum(before.take(i as int), originals, 1),
            sum_z == member_sum(before.take(i as int), originals, 2),
            -(count * COORD_MAX) <= sum_x <= count * COORD_MAX,
            -(count * COORD_MAX) <= sum_y <= count * COORD_MAX,
            -(count * COORD_MAX) <= sum_z <= count * COORD_MAX,
            selected_seen == any_selected(before.take(i as int)),
        decreases n - i,
    {
        assert(before.take(i + 1).drop_last() =~= before.take(i as int));
        let p: Particle = world.particle(i);
        proof {
            let prefix = before.take(i as int);
            let longer = before.take(i + 1);
            if p.selected {
                assert(longer[i as int].selected);
            } else if any_selected(longer) {
                let k = choose|k: int| 0 <= k < longer.len() && (#[trigger] longer[k]).selected;
                assert(prefix[k].selected);
            }
            if any_selected(prefix) {
                let k = choose|k: int| 0 <= k < prefix.len() && (#[trigger] prefix[k]).selected;
                assert(longer[k].selected);
            }
        }
        if p.selected {
            selected_seen = true;
            match find_original(&transform_state.original_selection_positions, p.entity) {
                Some(o) => {
                    count += 1;
                    sum_x += o.x as i128;
                    sum_y += o.y as i128;
                    sum_z += o.z as i128;
                },
                None => {},
            }
        }
        i += 1;
    }
    assert(before.take(n as int) =~= before);
    if count == 0 {
        assert forall|k: int| 0 <= k < n implies !is_member(#[trigger] before[k], originals) by {
            lemma_no_member(before, originals, k);
        }
        assert(world@ =~= selection_transformed(before, originals, scale, offset));
    } else {
        proof {
            lemma_mean_in_range(sum_x as int, count as int);
            lemma_mean_in_range(sum_y as int, count as int);
            lemma_mean_in_range(sum_z as int, count as int);
        }
        let c = Vec3 {
            x: div_floor(sum_x, count as i128) as i64,
            y: div_floor(sum_y, count as i128) as i64,
            z: div_floor(sum_z, count as i128) as i64,
        };
        assert(c == centroid(before, originals));
        let mut j: usize = 0;
        while j < n
            invariant
                world.wf(),
                world.next_id() == old(world).next_id(),
                before == old(world)@,
                world@.len() == n,
                before.len() == n,
                j <= n,
                originals == transform_state.originals(),
                originals_wf(originals),
                c == centroid(before, originals),
                c.in_range(),
                forall|k: int|
                    0 <= k < j ==> world@[k] == selection_transformed(
                        before,
                        originals,
                        scale,
                        offset,
                    )[k],
                forall|k: int| j <= k < n ==> world@[k] == before[k],
            decreases n - j,
        {
            let p: Particle = world.particle(j);
            if p.selected {
                match find_original(&transform_state.original_selection_positions, p.entity) {
                    Some(o) => {
                        let placed = Vec3 {
                            x: transform_axis(o.x, c.x, scale.x, offset.x),
                            y: transform_axis(o.y, c.y, scale.y, offset.y),
                            z: transform_axis(o.z, c.z, scale.z, offset.z),
                        };
                        world.set_translation(j, placed);
                    },
                    None => {},
                }
            }
            j += 1;
        }
        assert(world@ =~= selection_transformed(before, originals, scale, offset));
    }
    if selected_seen && transform_state.original_selection_positions.len() > 0 {
        transform_state.previous_position_offset = offset;
        transform_state.previous_scale = scale;
    }
}

/// Count and sums of the members depend on the identities and selection
/// flags of the particles alone, not on where the particles are.
proof fn lemma_members_ignore_positions(
    s: Seq<Particle>,
    t: Seq<Particle>,
    originals: Seq<OriginalPosition>,
    axis: int,
)
    requires
        s.len() == t.len(),
        forall|k: int|
            0 <= k < s.len() ==> (#[trigger] s[k]).entity == t[k].entity && s[k].selected
                == t[k].selected,
    ensures
        member_count(s, originals) == member_count(t, originals),
        member_sum(s, originals, axis) == member_sum(t, originals, axis),
    decreases s.len(),
{
    if s.len() > 0 {
        lemma_members_ignore_positions(s.drop_last(), t.drop_last(), originals, axis);
        assert(s.last().entity == t.last().entity && s.last().selected == t.last().selected);
    }
}

/// Applying the transform a second time with the same offset and scale
/// changes nothing: every particle is where the first application put it.
pub proof fn lemma_selection_transform_idempotent(
    s: Seq<Particle>,
    originals: Seq<OriginalPosition>,
    scale: Vec3,
    offset: Vec3,
)
    ensures
        selection_transformed(
            selection_transformed(s, originals, scale, offset),
            originals,
            scale,
            offset,
        ) == selection_transformed(s, originals, scale, offset),
{
    let once = selection_transformed(s, originals, scale, offset);
    lemma_members_ignore_positions(s, once, originals, 0);
    lemma_members_ignore_positions(s, once, originals, 1);
    lemma_members_ignore_positions(s, once, originals, 2);
    assert(centroid(once, originals) == centroid(s, originals));
    assert(selection_transformed(once, originals, scale, offset) =~= once);
}

/// With scale one and no offset, the transform puts every member at its
/// original position, wherever the centroid is.
pub proof fn lemma_identity_transform_keeps_originals(original: Vec3, centroid: Vec3)
    requires
        original.in_range(),
    ensures
        transformed_position(original, centroid, Vec3::one(), Vec3::zero()) == original,
{
    lemma_scaled_by_one(original.x - centroid.x);
    lemma_scaled_by_one(original.y - centroid.y);
    lemma_scaled_by_one(original.z - centroid.z);
}

/// Scaling by `ONE` changes nothing.
proof fn lemma_scaled_by_one(a: int)
    ensures
        scaled(a, ONE as int) == a,
{
    assert((a * ONE) / (ONE as int) == a) by (nonlinear_arith);
}

/// The numbers of `x` strictly increase.
pub open spec fn strictly_increasing(x: Seq<u64>) -> bool {
    forall|i: int, j: int| 0 <= i < j < x.len() ==> x[i] < x[j]
}

/// The identities of the selected particles come in increasing order and
/// are exactly the members of the selection set.
proof fn lemma_selected_ids_sorted(s: Seq<Particle>)
    requires
        entities_increasing(s),
    ensures
        strictly_increasing(selected_ids(s)),
        forall|e: u64| selected_ids(s).contains(e) <==> selection_set(s).contains(e),
    decreases s.len(),
{
    if s.len() > 0 {
        let rest = s.drop_last();
        let last = s.last();
        lemma_selected_ids_sorted(rest);
        let ids = selected_ids(s);
        let rest_ids = selected_ids(rest);
        assert forall|e: u64| selection_set(rest).contains(e) implies e < last.entity
            && selection_set(s).contains(e) by {
            let i = choose|i: int| 0 <= i < rest.len() && rest[i].entity == e && rest[i].selected;
            assert(s[i].entity == e && s[i].selected);
        }
        assert forall|e: u64| selection_set(s).contains(e) implies selection_set(rest).contains(e)
            || (last.selected && e == last.entity) by {
            let i = choose|i: int| 0 <= i < s.len() && s[i].entity == e && s[i].selected;
            if i < rest.len() {
                assert(rest[i].entity == e && rest[i].selected);
            }
        }
        if last.selected {
            assert(s[s.len() - 1].entity == last.entity && s[s.len() - 1].selected);
            assert forall|e: u64| ids.contains(e) implies selection_set(s).contains(e) by {
                let k = choose|k: int| 0 <= k < ids.len() && ids[k] == e;
                if k < rest_ids.len() {
                    assert(rest_ids[k] == e);
                    assert(rest_ids.contains(e));
                }
            }
            assert forall|e: u64| selection_set(s).contains(e) implies ids.contains(e) by {
                if selection_set(rest).contains(e) {
                    assert(rest_ids.contains(e));
                    let k = choose|k: int| 0 <= k < rest_ids.len() && rest_ids[k] == e;
                    assert(ids[k] == e);
                } else {
                    assert(ids[ids.len() - 1] == e);
                }
            }
            assert forall|i: int, j: int| 0 <= i < j < ids.len() implies ids[i] < ids[j] by {
                if j == ids.len() - 1 {
                    assert(rest_ids[i] == ids[i]);
                    assert(rest_ids.contains(ids[i]));
                } else {
                    assert(rest_ids[i] < rest_ids[j]);
                }
            }
        }
    }
}

/// Two strictly increasing sequences with the same elements are equal.
proof fn lemma_increasing_seqs_equal(x: Seq<u64>, y: Seq<u64>)
    requires
        strictly_increasing(x),
        strictly_increasing(y),
        forall|e: u64| x.contains(e) <==> y.contains(e),
    ensures
        x == y,
    decreases x.len(),
{
    if x.len() == 0 {
        if y.len() > 0 {
            assert(y.contains(y[0]));
            let k = choose|k: int| 0 <= k < x.len() && x[k] == y[0];
        }
        assert(x =~= y);
    } else {
        let top = x.last();
        assert(x.contains(top));
        assert(y.contains(top));
        let j = choose|j: int| 0 <= j < y.len() && y[j] == top;
        assert(y.contains(y.last()));
        assert(x.contains(y.last()));
        let i = choose|i: int| 0 <= i < x.len() && x[i] == y.last();
        assert(j == y.len() - 1) by {
            if j < y.len() - 1 {
                assert(y[j] < y[y.len() - 1]);
                if i < x.len() - 1 {
                    assert(x[i] < x[x.len() - 1]);
                }
            }
        }
        let xs = x.drop_last();
        let ys = y.drop_last();
        assert forall|e: u64| xs.contains(e) <==> ys.contains(e) by {
            if xs.contains(e) {
                let k = choose|k: int| 0 <= k < xs.len() && xs[k] == e;
                assert(x[k] == e);
                assert(x[k] < x[x.len() - 1]);
                assert(x.contains(e));
                let m = choose|m: int| 0 <= m < y.len() && y[m] == e;
                assert(m < y.len() - 1);
                assert(ys[m] == e);
            }
            if ys.contains(e) {
                let k = choose|k: int| 0 <= k < ys.len() && ys[k] == e;
                assert(y[k] == e);
                assert(y[k] < y[y.len() - 1]);
                assert(y.contains(e));
                let m = choose|m: int| 0 <= m < x.len() && x[m] == e;
                assert(m < x.len() - 1);
                assert(xs[m] == e);
            }
        }
        lemma_increasing_seqs_equal(xs, ys);
        assert(x =~= xs.push(top));
        assert(y =~= ys.push(top));
    }
}

/// The hash of the selection depends on which particles are selected and
/// on nothing else: two arenas with the same selection set give the same
/// hash, however their particles are arranged otherwise.
pub proof fn lemma_selection_hash_follows_set(a: Seq<Particle>, b: Seq<Particle>)
    requires
        entities_increasing(a),
        entities_increasing(b),
        selection_set(a) == selection_set(b),
    ensures
        selected_ids(a) == selected_ids(b),
        selection_hash(selected_ids(a)) == selection_hash(selected_ids(b)),
{
    lemma_selected_ids_sorted(a);
    lemma_selected_ids_sorted(b);
    lemma_increasing_seqs_equal(selected_ids(a), selected_ids(b));
}

/// When no particle of `s` is counted as a member, none is one.
proof fn lemma_no_member(s: Seq<Particle>, originals: Seq<OriginalPosition>, k: int)
    requires
        member_count(s, originals) == 0,
        0 <= k < s.len(),
    ensures
        !is_member(s[k], originals),
    decreases s.len(),
{
    if k < s.len() - 1 {
        lemma_no_member(s.drop_last(), originals, k);
    }
}

} // verus!
