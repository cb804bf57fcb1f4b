//! Component storage and the integer-valued component types.
//!
//! [`ComponentStore<T>`] is a sparse-array (SoA) container indexed by entity
//! index. Components are plain data structs with no behaviour.
use vstd::prelude::*;

use crate::entity::EntityId;

verus! {

/// SoA component storage -- sparse array indexed by entity index.
///
/// Internally stores `Vec<Option<T>>` and grows on demand. Lookups are O(1)
/// by entity index; iteration skips `None` slots.
pub struct ComponentStore<T> {
    data: Vec<Option<T>>,
}

impl<T> ComponentStore<T> {
    /// The slot array, one optional component per entity index.
    pub closed spec fn slots(&self) -> Seq<Option<T>> {
        self.data@
    }

    /// The slot array's length fits a `usize`.
    pub proof fn lemma_slots_fit(&self)
        ensures
            self.slots().len() <= usize::MAX,
    {
        assert(self.data.len() == self.data@.len());
    }

    /// The component stored for entity index `index`, if any.
    pub open spec fn spec_get(&self, index: u32) -> Option<T> {
        if index < self.slots().len() {
            self.slots()[index as int]
        } else {
            None
        }
    }

    /// The store as a finite map from entity index to component.
    pub open spec fn contents(&self) -> Map<u32, T> {
        Map::new(|i: u32| self.spec_get(i) is Some, |i: u32| self.spec_get(i)->Some_0)
    }

    /// `entries` lists, in increasing index order, exactly the present components.
    pub open spec fn lists_entries(&self, entries: Seq<(u32, T)>) -> bool {
        &&& forall|k: int|
            0 <= k < entries.len() ==> self.spec_get(#[trigger] entries[k].0) == Some(
                entries[k].1,
            )
        &&& forall|k: int, l: int| 0 <= k < l < entries.len() ==> entries[k].0 < entries[l].0
        &&& forall|i: u32|
            #[trigger] self.spec_get(i) is Some ==> exists|k: int|
                0 <= k < entries.len() && entries[k].0 == i
    }
}

/// Mutable references to the present components of `slots`, whose first slot has
/// entity index `base`, in increasing index order.
fn collect_present_mut<'a, T>(slots: &'a mut [Option<T>], base: usize) -> (out: Vec<(u32, &'a mut T)>)
    requires
        base + old(slots)@.len() <= u32::MAX + 1,
        base + old(slots)@.len() <= usize::MAX,
    ensures
        final(slots)@.len() == old(slots)@.len(),
        forall|k: int|
            0 <= k < out@.len() ==> base <= #[trigger] out@[k].0 < base + old(slots)@.len(),
        forall|k: int|
            0 <= k < out@.len() ==> old(slots)@[out@[k].0 - base] == Some(*(#[trigger] out@[k]).1),
        forall|k: int|
            0 <= k < out@.len() ==> final(slots)@[out@[k].0 - base] == Some(
                *final((#[trigger] out@[k]).1),
            ),
        forall|k: int, l: int| 0 <= k < l < out@.len() ==> out@[k].0 < out@[l].0,
        forall|j: int|
            0 <= j < old(slots)@.len() && (#[trigger] old(slots)@[j]) is Some ==> exists|k: int|
                0 <= k < out@.len() && out@[k].0 == base + j,
        forall|j: int|
            0 <= j < old(slots)@.len() && (#[trigger] old(slots)@[j]) is None ==> final(slots)@[j] is None,
    decreases old(slots)@.len(),
{
    if slots.len() == 0 {
        return Vec::new();
    }
    let ghost all = slots@;
    let ghost fs = final(slots)@;
    let (head, tail) = slots.split_at_mut(1);
    let ghost fh = final(head)@;
    let ghost ft = final(tail)@;
    assert(fs == fh + ft);
    let ghost tail_v = tail@;
    let mut out = collect_present_mut(tail, base + 1);
    let ghost rest = out@;
    match head.first_mut() {
        Some(slot) => {
            match slot.as_mut() {
                Some(c) => {
                    out.insert(0, (base as u32, c));
                    proof {
                        assert forall|j: int|
                            0 <= j < all.len() && (#[trigger] all[j]) is Some implies exists|k: int|
                            0 <= k < out@.len() && out@[k].0 == base + j by {
                            if j == 0 {
                                assert(out@[0].0 == base + j);
                            } else {
                                assert(tail_v[j - 1] == all[j]);
                                let k = choose|k: int| 0 <= k < rest.len() && rest[k].0 == base + 1 + (j - 1);
                                assert(out@[k + 1] == rest[k]);
                            }
                        }
                    }
                },
                None => {
                    proof {
                        assert forall|j: int|
                            0 <= j < all.len() && (#[trigger] all[j]) is Some implies exists|k: int|
                            0 <= k < out@.len() && out@[k].0 == base + j by {
                            assert(j != 0);
                            assert(tail_v[j - 1] == all[j]);
                            let k = choose|k: int| 0 <= k < rest.len() && rest[k].0 == base + 1 + (j - 1);
                        }
                    }
                },
            }
        },
        None => {},
    }
    proof {
        assert forall|j: int|
            0 <= j < all.len() && (#[trigger] all[j]) is None implies fs[j] is None by {
            if j > 0 {
                assert(tail_v[j - 1] == all[j]);
                assert(fs[j] == ft[j - 1]);
            } else {
                assert(fs[0] == fh[0]);
            }
        }
    }
    out
}

impl<T: Clone> ComponentStore<T> {
    /// Create an empty store.
    pub fn new() -> (s: Self)
        ensures
            s.slots() == Seq::<Option<T>>::empty(),
            s.contents() == Map::<u32, T>::empty(),
    {
        let s = Self { data: Vec::new() };
        assert(s.contents() =~= Map::<u32, T>::empty());
        s
    }

    /// Insert (or overwrite) a component for the given entity.
    pub fn insert(&mut self, id: EntityId, component: T)
        requires
            id.index + 1 <= usize::MAX,
        ensures
            final(self).spec_get(id.index) == Some(component),
            forall|i: u32| i != id.index ==> final(self).spec_get(i) == old(self).spec_get(i),
            final(self).contents() == old(self).contents().insert(id.index, component),
            old(self).slots().len() <= u32::MAX + 1 ==> final(self).slots().len() <= u32::MAX + 1,
            final(self).slots().len() == if id.index < old(self).slots().len() {
                old(self).slots().len() as int
            } else {
                id.index + 1
            },
    {
        let idx = id.index as usize;
        if idx >= self.data.len() {
            self.data.resize(idx + 1, None);
        }
        self.data.set(idx, Some(component));
        proof {
            assert forall|i: u32| i != id.index implies self.spec_get(i) == old(self).spec_get(
                i,
            ) by {
                if i < self.data@.len() && i >= old(self).data@.len() {
                    assert(self.data@[i as int].is_none());
                }
            }
            assert(self.contents() =~= old(self).contents().insert(id.index, component));
        }
    }

    /// Remove and return the component for the given entity, if present.
    pub fn remove(&mut self, id: EntityId) -> (removed: Option<T>)
        ensures
            removed == old(self).spec_get(id.index),
            final(self).spec_get(id.index) is None,
            forall|i: u32| i != id.index ==> final(self).spec_get(i) == old(self).spec_get(i),
            final(self).contents() == old(self).contents().remove(id.index),
            final(self).slots().len() == old(self).slots().len(),
    {
        let idx = id.index as usize;
        if idx < self.data.len() {
            let mut taken = None;
            std::mem::swap(&mut taken, &mut self.data[idx]);
            proof {
                assert(self.contents() =~= old(self).contents().remove(id.index));
            }
            taken
        } else {
            proof {
                assert(self.contents() =~= old(self).contents().remove(id.index));
            }
            None
        }
    }

    /// Get an immutable reference to the component, if present.
    pub fn get(&self, id: EntityId) -> (r: Option<&T>)
        ensures
            r is Some == self.spec_get(id.index) is Some,
            r is Some ==> *r->Some_0 == self.spec_get(id.index)->Some_0,
    {
        let idx = id.index as usize;
        if idx < self.data.len() {
            self.data[idx].as_ref()
        } else {
            None
        }
    }

    /// Get a mutable reference to the component, if present.
    pub fn get_mut(&mut self, id: EntityId) -> (r: Option<&mut T>)
        ensures
            r is Some == old(self).spec_get(id.index) is Some,
            r is Some ==> *r->Some_0 == old(self).spec_get(id.index)->Some_0,
            r is Some ==> final(self).slots() == old(self).slots().update(
                id.index as int,
                Some(*final(r->Some_0)),
            ),
            r is None ==> final(self).slots() == old(self).slots(),
    {
        let idx = id.index as usize;
        if idx < self.data.len() {
            self.data[idx].as_mut()
        } else {
            None
        }
    }

    /// All `(index, &component)` pairs that exist, in increasing index order.
    pub fn iter(&self) -> (entries: Vec<(u32, &T)>)
        ensures
            forall|k: int|
                0 <= k < entries@.len() ==> self.spec_get(#[trigger] entries@[k].0) == Some(
                    *entries@[k].1,
                ),
            forall|k: int, l: int| 0 <= k < l < entries@.len() ==> entries@[k].0 < entries@[l].0,
            forall|i: u32|
                #[trigger] self.spec_get(i) is Some ==> exists|k: int|
                    0 <= k < entries@.len() && entries@[k].0 == i,
    {
        let limit: usize = if self.data.len() <= u32::MAX as usize {
            self.data.len()
        } else {
            u32::MAX as usize + 1
        };
        let mut entries: Vec<(u32, &T)> = Vec::new();
        let mut i: usize = 0;
        while i < limit
            invariant
                limit <= self.data@.len(),
                limit <= u32::MAX + 1,
                limit == self.data@.len() || limit == u32::MAX + 1,
                i <= limit,
                forall|k: int|
                    0 <= k < entries@.len() ==> self.spec_get(#[trigger] entries@[k].0) == Some(
                        *entries@[k].1,
                    ),
                forall|k: int| 0 <= k < entries@.len() ==> #[trigger] entries@[k].0 < i,
                forall|k: int, l: int|
                    0 <= k < l < entries@.len() ==> entries@[k].0 < entries@[l].0,
                forall|j: u32|
                    j < i && #[trigger] self.spec_get(j) is Some ==> exists|k: int|
                        0 <= k < entries@.len() && entries@[k].0 == j,
            decreases limit - i,
        {
            if let Some(c) = self.data[i].as_ref() {
                let ghost prev = entries@;
                entries.push((i as u32, c));
                proof {
                    assert forall|j: u32|
                        j < i + 1 && #[trigger] self.spec_get(j) is Some implies exists|k: int|
                            0 <= k < entries@.len() && entries@[k].0 == j by {
                        if j < i {
                            let k = choose|k: int| 0 <= k < prev.len() && prev[k].0 == j;
                            assert(entries@[k] == prev[k]);
                        } else {
                            assert(entries@[prev.len() as int].0 == j);
                        }
                    }
                }
            }
            i = i + 1;
        }
        entries
    }

    /// All `(index, &mut component)` pairs that exist, in increasing index order.
    /// Writing through a returned reference updates that entity's component.
    pub fn iter_mut(&mut self) -> (entries: Vec<(u32, &mut T)>)
        ensures
            forall|k: int|
                0 <= k < entries@.len() ==> old(self).spec_get(#[trigger] entries@[k].0) == Some(
                    *entries@[k].1,
                ),
            forall|k: int, l: int| 0 <= k < l < entries@.len() ==> entries@[k].0 < entries@[l].0,
            forall|i: u32|
                #[trigger] old(self).spec_get(i) is Some ==> exists|k: int|
                    0 <= k < entries@.len() && entries@[k].0 == i,
            forall|k: int|
                0 <= k < entries@.len() ==> final(self).spec_get(#[trigger] entries@[k].0) == Some(
                    *final(entries@[k].1),
                ),
            forall|i: u32| #[trigger]
                old(self).spec_get(i) is None ==> final(self).spec_get(i) is None,
            final(self).slots().len() == old(self).slots().len(),
    {
        proof {
            self.lemma_slots_fit();
        }
        let limit: usize = if self.data.len() <= u32::MAX as usize {
            self.data.len()
        } else {
            u32::MAX as usize + 1
        };
        let ghost old_data = self.data@;
        let ghost fdata = final(self).data@;
        let slice = self.data.as_mut_slice();
        let ghost fs = final(slice)@;
        let (indexed, beyond) = slice.split_at_mut(limit);
        let ghost fi = final(indexed)@;
        let ghost fb = final(beyond)@;
        let ghost cb = beyond@;
        assert(fs == fi + fb);
        assert(has_resolved(beyond));
        assert(fb == cb);
        let ghost iv = indexed@;
        assert(iv == old_data.subrange(0, limit as int));
        let entries = collect_present_mut(indexed, 0);
        proof {
            assert forall|i: u32| #[trigger] old(self).spec_get(i) is Some implies exists|k: int|
                0 <= k < entries@.len() && entries@[k].0 == i by {
                assert(old_data[i as int] is Some);
                assert(iv[i as int] == old_data[i as int]);
                let k = choose|k: int| 0 <= k < entries@.len() && entries@[k].0 == 0 + i;
            }
            assert(fdata == fs);
            assert forall|i: u32| i < old_data.len() && #[trigger] old_data[i as int] is None implies fs[i as int] is None by {
                assert(iv[i as int] == old_data[i as int]);
                assert(fs[i as int] == fi[i as int]);
            }
        }
        entries
    }

    /// Check whether the entity has this component.
    pub fn has(&self, id: EntityId) -> (b: bool)
        ensures
            b == self.spec_get(id.index) is Some,
    {
        self.get(id).is_some()
    }
}

impl<T: Clone> Default for ComponentStore<T> {
    fn default() -> (s: Self)
        ensures
            s.slots() == Seq::<Option<T>>::empty(),
            s.contents() == Map::<u32, T>::empty(),
    {
        Self::new()
    }
}

/// Reading a component back after inserting it gives the inserted value, and
/// the insert leaves every other entity's component as it was.
pub proof fn insert_then_get<T>(
    before: ComponentStore<T>,
    after: ComponentStore<T>,
    index: u32,
    component: T,
    other: u32,
)
    requires
        after.contents() == before.contents().insert(index, component),
    ensures
        after.spec_get(index) == Some(component),
        other != index ==> after.spec_get(other) == before.spec_get(other),
{
    assert(after.contents().dom().contains(index));
    assert(after.contents()[index] == component);
    assert(after.spec_get(index) is Some);
    if other != index {
        if before.spec_get(other) is Some {
            assert(before.contents().dom().contains(other));
            assert(after.contents().dom().contains(other));
            assert(after.contents()[other] == before.contents()[other]);
        } else {
            assert(!before.contents().dom().contains(other));
            assert(!after.contents().dom().contains(other));
        }
    }
}

/// Removing a component after inserting it into an empty slot restores the store's
/// contents: insert and remove undo one another.
pub proof fn remove_undoes_insert<T>(
    before: ComponentStore<T>,
    middle: ComponentStore<T>,
    after: ComponentStore<T>,
    index: u32,
    component: T,
)
    requires
        before.spec_get(index) is None,
        middle.contents() == before.contents().insert(index, component),
        after.contents() == middle.contents().remove(index),
    ensures
        after.contents() == before.contents(),
{
    assert(!before.contents().dom().contains(index));
    assert(after.contents() =~= before.contents());
}

/// Team affiliation.
#[derive(Debug, Clone, Copy, PartialEq, Eq, Structural)]
pub struct Team(pub u8);

/// Optional move-to target position; `P` is the simulation's position type.
#[derive(Debug, Clone, Copy)]
pub struct MoveTarget<P>(pub Option<P>);

/// Optional attack target (an [`EntityId`]).
#[derive(Debug, Clone, Copy, PartialEq, Eq, Structural)]
pub struct AttackTarget(pub Option<EntityId>);

} // verus!
