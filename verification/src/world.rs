//! The particle arena: every live particle of the scene, with its position
//! and its selection and motion flags.

use vstd::prelude::*;
use crate::vector::Vec3;

verus! {

/// The colour a particle is drawn with.
#[derive(Clone, Copy, Debug, PartialEq, Eq, Structural)]
pub enum ParticleMaterial {
    /// Not selected.
    White,
    /// Selected by a ray pick.
    Green,
    /// Selected by a drag box.
    Purple,
}

/// One particle: its identity, where it is, where it sits inside the bounds
/// volume, and its flags.
#[derive(Clone, Copy, Debug, PartialEq, Eq, Structural)]
pub struct Particle {
    /// Identity; never reused within one arena.
    pub entity: u64,
    /// World position.
    pub translation: Vec3,
    /// Position relative to the bounds volume, each axis nominally in `[0, ONE]`.
    pub base_position: Vec3,
    /// Member of the selection set.
    pub selected: bool,
    /// Taking part in the orbit animation.
    pub in_motion: bool,
    /// Colour shown; white exactly when not selected.
    pub material: ParticleMaterial,
}

impl Particle {
    /// Positions are in range, and the colour agrees with the selection flag.
    pub open spec fn wf(self) -> bool {
        &&& self.translation.in_range()
        &&& self.base_position.in_range()
        &&& (self.material == ParticleMaterial::White) == !self.selected
    }
}

/// Entities strictly increase along the sequence; in particular none occurs twice.
pub open spec fn entities_increasing(s: Seq<Particle>) -> bool {
    forall|i: int, j: int| 0 <= i < j < s.len() ==> s[i].entity < s[j].entity
}

/// Some particle of `s` has the identity `entity`.
pub open spec fn contains_entity(s: Seq<Particle>, entity: u64) -> bool {
    exists|i: int| 0 <= i < s.len() && s[i].entity == entity
}

/// The identities of the selected particles of `s`: the selection set.
pub open spec fn selection_set(s: Seq<Particle>) -> Set<u64> {
    Set::new(|e: u64| exists|i: int| 0 <= i < s.len() && s[i].entity == e && s[i].selected)
}

/// Some particle of `s` is selected.
pub open spec fn any_selected(s: Seq<Particle>) -> bool {
    exists|k: int| 0 <= k < s.len() && (#[trigger] s[k]).selected
}

/// The particle that a spawn creates: not selected, at rest, white.
pub open spec fn fresh_particle(entity: u64, translation: Vec3, base_position: Vec3) -> Particle {
    Particle {
        entity,
        translation,
        base_position,
        selected: false,
        in_motion: false,
        material: ParticleMaterial::White,
    }
}

/// The particles of `s` that are not selected, in the order of `s`.
pub open spec fn unselected(s: Seq<Particle>) -> Seq<Particle>
    decreases s.len(),
{
    if s.len() == 0 {
        Seq::empty()
    } else if s.last().selected {
        unselected(s.drop_last())
    } else {
        unselected(s.drop_last()).push(s.last())
    }
}

/// The identities of the selected particles of `s`, in the order of `s`.
pub open spec fn selected_ids(s: Seq<Particle>) -> Seq<u64>
    decreases s.len(),
{
    if s.len() == 0 {
        Seq::empty()
    } else if s.last().selected {
        selected_ids(s.drop_last()).push(s.last().entity)
    } else {
        selected_ids(s.drop_last())
    }
}

/// Every member of the selection set is a live particle.
pub proof fn lemma_selection_members_exist(s: Seq<Particle>, entity: u64)
    requires
        selection_set(s).contains(entity),
    ensures
        contains_entity(s, entity),
{
    let i = choose|i: int| 0 <= i < s.len() && s[i].entity == entity && s[i].selected;
    assert(s[i].entity == entity);
}

/// Removing the selected particles leaves the other particles as they
/// were and the selection empty: no removed particle stays a member.
pub proof fn lemma_unselected_has_no_selection(s: Seq<Particle>)
    ensures
        selection_set(unselected(s)) == Set::<u64>::empty(),
        forall|k: int| 0 <= k < unselected(s).len() ==> !(#[trigger] unselected(s)[k]).selected,
        forall|k: int|
            0 <= k < s.len() && !(#[trigger] s[k]).selected ==> unselected(s).contains(s[k]),
    decreases s.len(),
{
    if s.len() > 0 {
        let rest = s.drop_last();
        lemma_unselected_has_no_selection(rest);
        let kept = unselected(s);
        assert forall|k: int| 0 <= k < s.len() && !(#[trigger] s[k]).selected implies kept.contains(
            s[k],
        ) by {
            if k < rest.len() {
                assert(rest[k] == s[k]);
                assert(unselected(rest).contains(s[k]));
                let j = choose|j: int| 0 <= j < unselected(rest).len() && unselected(rest)[j] == s[k];
                assert(kept[j] == s[k]);
            } else {
                assert(kept[kept.len() - 1] == s[k]);
            }
        }
    }
    let kept = unselected(s);
    assert forall|e: u64| !selection_set(kept).contains(e) by {
        if selection_set(kept).contains(e) {
            let i = choose|i: int| 0 <= i < kept.len() && kept[i].entity == e && kept[i].selected;
            assert(!kept[i].selected);
        }
    }
    assert(selection_set(kept) =~= Set::<u64>::empty());
}

/// The arena of live particles, kept in increasing order of identity.
pub struct ParticleWorld {
    particles: Vec<Particle>,
    next_entity: u64,
}

impl View for ParticleWorld {
    type V = Seq<Particle>;

    closed spec fn view(&self) -> Seq<Particle> {
        self.particles@
    }
}

impl Default for ParticleWorld {
    /// An arena without particles.
    fn default() -> (world: Self)
        ensures
            world.wf(),
            world@ == Seq::<Particle>::empty(),
            world.next_id() == 0,
    {
        ParticleWorld { particles: Vec::new(), next_entity: 0 }
    }
}

impl ParticleWorld {
    /// The identity the next spawned particle will get.
    pub closed spec fn next_id(&self) -> u64 {
        self.next_entity
    }

    /// The arena's invariant.
    pub open spec fn wf(&self) -> bool {
        &&& entities_increasing(self@)
        &&& forall|i: int|
            0 <= i < self@.len() ==> (#[trigger] self@[i]).wf() && self@[i].entity < self.next_id()
    }

    /// An arena without particles.
    pub fn new() -> (world: ParticleWorld)
        ensures
            world.wf(),
            world@ == Seq::<Particle>::empty(),
            world.next_id() == 0,
    {
        ParticleWorld { particles: Vec::new(), next_entity: 0 }
    }

    /// Number of live particles.
    pub fn len(&self) -> (n: usize)
        ensures
            n == self@.len(),
    {
        self.particles.len()
    }

    /// The particle at position `index` of the arena.
    pub fn particle(&self, index: usize) -> (p: Particle)
        requires
            index < self@.len(),
        ensures
            p == self@[index as int],
    {
        self.particles[index]
    }

    /// Where the particle `entity` sits in the arena, if it is alive.
    pub fn index_of(&self, entity: u64) -> (found: Option<usize>)
        ensures
            match found {
                Some(i) => i < self@.len() && self@[i as int].entity == entity,
                None => !contains_entity(self@, entity),
            },
    {
        let n: usize = self.particles.len();
        let mut i: usize = 0;
        while i < n
            invariant
                n == self@.len(),
                i <= n,
                forall|k: int| 0 <= k < i ==> self@[k].entity != entity,
            decreases n - i,
        {
            if self.particles[i].entity == entity {
                return Some(i);
            }
            i += 1;
        }
        None
    }

    /// The particle `entity`, if it is alive.
    pub fn get(&self, entity: u64) -> (found: Option<Particle>)
        ensures
            match found {
                Some(p) => exists|i: int| 0 <= i < self@.len() && self@[i] == p && p.entity == entity,
                None => !contains_entity(self@, entity),
            },
    {
        match self.index_of(entity) {
            Some(i) => Some(self.particles[i]),
            None => None,
        }
    }

    /// Whether the particle `entity` is alive and in the selection set.
    pub fn is_selected(&self, entity: u64) -> (selected: bool)
        requires
            self.wf(),
        ensures
            selected == selection_set(self@).contains(entity),
    {
        match self.index_of(entity) {
            Some(i) => {
                proof {
                    if selection_set(self@).contains(entity) {
                        let k = choose|k: int|
                            0 <= k < self@.len() && self@[k].entity == entity && self@[k].selected;
                        if k < i {
                            assert(self@[k].entity < self@[i as int].entity);
                        } else if k > i {
                            assert(self@[i as int].entity < self@[k].entity);
                        }
                    }
                }
                self.particles[i].selected
            },
            None => {
                proof {
                    if selection_set(self@).contains(entity) {
                        let k = choose|k: int|
                            0 <= k < self@.len() && self@[k].entity == entity && self@[k].selected;
                        assert(contains_entity(self@, entity));
                    }
                }
                false
            },
        }
    }

    /// The identities of the selected particles, in increasing order.
    pub fn selected_entities(&self) -> (ids: Vec<u64>)
        ensures
            ids@ == selected_ids(self@),
    {
        let n: usize = self.particles.len();
        let mut ids: Vec<u64> = Vec::new();
        let mut i: usize = 0;
        while i < n
            invariant
                n == self@.len(),
                i <= n,
                ids@ == selected_ids(self@.take(i as int)),
            decreases n - i,
        {
            assert(self@.take(i + 1).drop_last() =~= self@.take(i as int));
            if self.particles[i].selected {
                ids.push(self.particles[i].entity);
            }
            i += 1;
        }
        assert(self@.take(n as int) =~= self@);
        ids
    }

    /// Adds a particle at `translation` (saturated into the coordinate
    /// range) with the given place in the bounds volume. Returns its fresh
    /// identity, or `None`, leaving the arena as it was, once identities
    /// are used up.
    pub fn spawn(&mut self, translation: Vec3, base_position: Vec3) -> (entity: Option<u64>)
        requires
            old(self).wf(),
        ensures
            final(self).wf(),
            old(self).next_id() == u64::MAX ==> entity.is_none() && *final(self) == *old(self),
            old(self).next_id() < u64::MAX ==> entity == Some(old(self).next_id())
                && final(self).next_id() == old(self).next_id() + 1
                && final(self)@ == old(self)@.push(
                fresh_particle(
                    old(self).next_id(),
                    translation.spec_clamped(),
                    base_position.spec_clamped(),
                ),
            ),
    {
        if self.next_entity == u64::MAX {
            return None;
        }
        let entity: u64 = self.next_entity;
        let particle = Particle {
            entity,
            translation: translation.clamped(),
            base_position: base_position.clamped(),
            selected: false,
            in_motion: false,
            material: ParticleMaterial::White,
        };
        self.particles.push(particle);
        self.next_entity = entity + 1;
        Some(entity)
    }

    /// Removes every particle. Identities already given out stay used.
    pub fn clear(&mut self)
        requires
            old(self).wf(),
        ensures
            final(self).wf(),
            final(self).next_id() == old(self).next_id(),
            final(self)@ == Seq::<Particle>::empty(),
    {
        self.particles.clear();
    }

    /// Removes the selected particles; with them the selection becomes empty.
    pub fn remove_selected(&mut self)
        requires
            old(self).wf(),
        ensures
            final(self).wf(),
            final(self).next_id() == old(self).next_id(),
            final(self)@ == unselected(old(self)@),
    {
        let n: usize = self.particles.len();
        let mut kept: Vec<Particle> = Vec::new();
        let mut i: usize = 0;
        while i < n
            invariant
                self.wf(),
                *self == *old(self),
                n == self@.len(),
                i <= n,
                kept@ == unselected(self@.take(i as int)),
                entities_increasing(kept@),
                forall|k: int|
                    0 <= k < kept@.len() ==> (#[trigger] kept@[k]).wf() && kept@[k].entity
                        < self.next_id(),
                forall|k: int, j: int|
                    0 <= k < kept@.len() && i <= j < n ==> (#[trigger] kept@[k]).entity < (
                    #[trigger] self@[j]).entity,
            decreases n - i,
        {
            assert(self@.take(i + 1).drop_last() =~= self@.take(i as int));
            let p: Particle = self.particles[i];
            assert(self@[i as int].wf());
            if !p.selected {
                kept.push(p);
            }
            i += 1;
        }
        assert(self@.take(n as int) =~= self@);
        self.particles = kept;
    }

    /// Moves the particle at `index` to `translation`.
    pub fn set_translation(&mut self, index: usize, translation: Vec3)
        requires
            old(self).wf(),
            index < old(self)@.len(),
            translation.in_range(),
        ensures
            final(self).wf(),
            final(self).next_id() == old(self).next_id(),
            final(self)@ == old(self)@.update(
                index as int,
                Particle { translation, ..old(self)@[index as int] },
            ),
    {
        let p: Particle = self.particles[index];
        self.particles.set(index, Particle { translation, ..p });
    }

    /// Puts the particle at `index` into the selection set with the colour
    /// `material`, or takes it out and paints it white.
    pub fn set_selected(&mut self, index: usize, selected: bool, material: ParticleMaterial)
        requires
            old(self).wf(),
            index < old(self)@.len(),
            (material == ParticleMaterial::White) == !selected,
        ensures
            final(self).wf(),
            final(self).next_id() == old(self).next_id(),
            final(self)@ == old(self)@.update(
                index as int,
                Particle { selected, material, ..old(self)@[index as int] },
            ),
    {
        let p: Particle = self.particles[index];
        self.particles.set(index, Particle { selected, material, ..p });
    }

    /// Starts or stops the orbit animation of the particle at `index`.
    pub fn set_in_motion(&mut self, index: usize, in_motion: bool)
        requires
            old(self).wf(),
            index < old(self)@.len(),
        ensures
            final(self).wf(),
            final(self).next_id() == old(self).next_id(),
            final(self)@ == old(self)@.update(
                index as int,
                Particle { in_motion, ..old(self)@[index as int] },
            ),
    {
        let p: Particle = self.particles[index];
        self.particles.set(index, Particle { in_motion, ..p });
    }
}

} // verus!
