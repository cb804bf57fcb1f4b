//! Entity system with generational IDs and a slot allocator.
//!
//! [`EntityId`] uses a generation counter to detect use-after-delete bugs.
//! [`EntityAllocator`] manages the free-list and generation bookkeeping.
use vstd::prelude::*;

verus! {

/// Generational entity ID -- catches use-after-delete.
///
/// Every entity gets a unique `(index, generation)` pair. When an entity is
/// destroyed its slot is recycled with an incremented generation, so stale IDs
/// pointing at the old generation are detected by [`EntityAllocator::is_alive`].
#[derive(Debug, Clone, Copy, PartialEq, Eq, Hash, Structural)]
pub struct EntityId {
    pub index: u32,
    pub generation: u32,
}

impl EntityId {
    /// Sentinel value representing "no entity": `(u32::MAX, u32::MAX)`.
    pub fn invalid() -> (id: Self)
        ensures
            id.index == u32::MAX,
            id.generation == u32::MAX,
            !id.spec_is_valid(),
    {
        EntityId { index: u32::MAX, generation: u32::MAX }
    }

    /// Create a new entity ID with the given index and generation.
    pub fn new(index: u32, generation: u32) -> (id: Self)
        ensures
            id.index == index,
            id.generation == generation,
    {
        Self { index, generation }
    }

    /// The sentinel test as a specification: every ID but `(u32::MAX, u32::MAX)`.
    pub open spec fn spec_is_valid(&self) -> bool {
        self.index != u32::MAX || self.generation != u32::MAX
    }

    /// Returns `true` if this is not the [`invalid`](Self::invalid) sentinel.
    pub fn is_valid(&self) -> (b: bool)
        ensures
            b == self.spec_is_valid(),
    {
        self.index != u32::MAX || self.generation != u32::MAX
    }
}

impl Default for EntityId {
    fn default() -> (id: Self)
        ensures
            id.index == u32::MAX,
            id.generation == u32::MAX,
    {
        EntityId { index: u32::MAX, generation: u32::MAX }
    }
}

/// Tracks which entity slots are alive and their generations.
///
/// Freed indices are recycled through a LIFO free-list. Every deallocation
/// bumps the generation of the freed slot so that stale [`EntityId`] handles
/// become invalid. An ID is alive only while its slot is handed out and carries
/// the ID's generation.
pub struct EntityAllocator {
    slots: SlotTable,
}

/// The allocator's bookkeeping: one generation and one in-use flag per slot, the
/// free-list, and the alive counter.
struct SlotTable {
    generations: Vec<u32>,
    in_use: Vec<bool>,
    free_indices: Vec<u32>,
    alive_count: u32,
}

proof fn lemma_distinct_below_len(s: Seq<u32>, n: int)
    requires
        s.no_duplicates(),
        forall|i: int| 0 <= i < s.len() ==> s[i] < n,
        0 <= n <= u32::MAX + 1,
    ensures
        s.len() <= n,
    decreases n,
{
    if n == 0 {
        if s.len() > 0 {
            assert(s[0] < n);
        }
        assert(s.len() <= n);
    } else if s.contains((n - 1) as u32) {
        let j = choose|j: int| 0 <= j < s.len() && s[j] == (n - 1) as u32;
        let t = s.remove(j);
        assert forall|a: int, b: int| 0 <= a < t.len() && 0 <= b < t.len() && a != b implies t[a]
            != t[b] by {
            let a2 = if a < j { a } else { a + 1 };
            let b2 = if b < j { b } else { b + 1 };
            assert(t[a] == s[a2]);
            assert(t[b] == s[b2]);
        }
        assert forall|i: int| 0 <= i < t.len() implies t[i] < n - 1 by {
            let i2 = if i < j { i } else { i + 1 };
            assert(t[i] == s[i2]);
            assert(s[i2] != s[j]);
        }
        lemma_distinct_below_len(t, n - 1);
        assert(t.len() == s.len() - 1);
        assert(s.len() <= n);
    } else {
        assert forall|i: int| 0 <= i < s.len() implies s[i] < n - 1 by {
            assert(s[i] != (n - 1) as u32);
        }
        lemma_distinct_below_len(s, n - 1);
        assert(s.len() <= n);
    }
}


impl SlotTable {
    /// Slot `i` is handed out: it exists and is not on the free-list.
    spec fn used(&self, i: int) -> bool {
        0 <= i < self.generations@.len() && !self.free_indices@.contains(i as u32)
    }

    /// The free-list names distinct existing slots, the in-use flags mark exactly
    /// the slots off the free-list, and the counter equals the slots in use.
    spec fn wf(&self) -> bool {
        &&& self.generations@.len() <= u32::MAX
        &&& self.in_use@.len() == self.generations@.len()
        &&& self.free_indices@.no_duplicates()
        &&& forall|i: int|
            0 <= i < self.free_indices@.len() ==> #[trigger] self.free_indices@[i]
                < self.generations@.len()
        &&& forall|i: int|
            0 <= i < self.in_use@.len() ==> (#[trigger] self.in_use@[i] <==> self.used(i))
        &&& self.alive_count == self.generations@.len() - self.free_indices@.len()
    }

    fn new() -> (t: Self)
        ensures
            t.wf(),
            t.generations@ == Seq::<u32>::empty(),
            t.free_indices@ == Seq::<u32>::empty(),
            t.alive_count == 0,
    {
        SlotTable { generations: Vec::new(), in_use: Vec::new(), free_indices: Vec::new(), alive_count: 0 }
    }

    fn allocate(&mut self) -> (id: EntityId)
        requires
            old(self).wf(),
            old(self).alive_count < u32::MAX,
        ensures
            final(self).wf(),
            !old(self).used(id.index as int),
            forall|i: int| final(self).used(i) <==> (old(self).used(i) || i == id.index),
            final(self).alive_count == old(self).alive_count + 1,
            old(self).free_indices@.len() > 0 ==> {
                &&& id.index == old(self).free_indices@.last()
                &&& id.generation == old(self).generations@[id.index as int]
                &&& final(self).free_indices@ == old(self).free_indices@.drop_last()
                &&& final(self).generations@ == old(self).generations@
            },
            old(self).free_indices@.len() == 0 ==> {
                &&& id.index == old(self).generations@.len()
                &&& id.generation == 0
                &&& final(self).free_indices@ == old(self).free_indices@
                &&& final(self).generations@ == old(self).generations@.push(0)
            },
    {
        let ghost old_free = self.free_indices@;
        let ghost old_gens = self.generations@;
        let ghost old_use = self.in_use@;
        let id = if let Some(index) = self.free_indices.pop() {
            assert(old_free.drop_last().len() + 1 == old_free.len());
            assert(index == old_free[old_free.len() - 1]);
            self.in_use.set(index as usize, true);
            EntityId::new(index, self.generations[index as usize])
        } else {
            let index = self.generations.len() as u32;
            self.generations.push(0);
            self.in_use.push(true);
            EntityId::new(index, 0)
        };
        self.alive_count = self.alive_count + 1;
        proof {
            let free = self.free_indices@;
            if old_free.len() > 0 {
                assert(free == old_free.drop_last());
                assert(old_free == free.push(id.index));
                assert(old_free.contains(id.index)) by {
                    assert(old_free[old_free.len() - 1] == id.index);
                }
                assert forall|i: int| #[trigger]
                    self.used(i) <==> (old(self).used(i) || i == id.index) by {
                    if 0 <= i < old_gens.len() && i != id.index {
                        if free.contains(i as u32) {
                            let k = choose|k: int| 0 <= k < free.len() && free[k] == i as u32;
                            assert(old_free[k] == i as u32);
                        }
                        if old_free.contains(i as u32) {
                            let k = choose|k: int| 0 <= k < old_free.len() && old_free[k] == i as u32;
                            assert(k != old_free.len() - 1);
                            assert(free[k] == i as u32);
                        }
                    }
                    if i == id.index {
                        if free.contains(i as u32) {
                            let k = choose|k: int| 0 <= k < free.len() && free[k] == i as u32;
                            assert(old_free[k] == old_free[old_free.len() - 1]);
                        }
                    }
                }
            } else {
                assert forall|i: int| #[trigger]
                    self.used(i) <==> (old(self).used(i) || i == id.index) by {
                    if free.contains(i as u32) {
                        let k = choose|k: int| 0 <= k < free.len() && free[k] == i as u32;
                    }
                }
            }
            assert forall|i: int| 0 <= i < self.in_use@.len() implies (#[trigger] self.in_use@[i]
                <==> self.used(i)) by {
                assert(self.used(i) <==> (old(self).used(i) || i == id.index));
                if i != id.index {
                    assert(self.in_use@[i] == old_use[i]);
                }
            }
        }
        id
    }

    fn deallocate(&mut self, id: EntityId)
        requires
            old(self).wf(),
            old(self).used(id.index as int),
            old(self).generations@[id.index as int] == id.generation,
            id.generation < u32::MAX,
        ensures
            final(self).wf(),
            final(self).generations@ == old(self).generations@.update(
                id.index as int,
                (id.generation + 1) as u32,
            ),
            final(self).free_indices@ == old(self).free_indices@.push(id.index),
            final(self).alive_count == old(self).alive_count - 1,
            forall|i: int| final(self).used(i) <==> (old(self).used(i) && i != id.index),
    {
        proof {
            let free = self.free_indices@;
            lemma_distinct_below_len(free.push(id.index), self.generations@.len() as int);
        }
        let ghost old_use = self.in_use@;
        let idx = id.index as usize;
        let g = self.generations[idx];
        self.generations.set(idx, g + 1);
        self.in_use.set(idx, false);
        self.free_indices.push(id.index);
        self.alive_count = self.alive_count - 1;
        proof {
            let free = self.free_indices@;
            let old_free = old(self).free_indices@;
            assert(free == old_free.push(id.index));
            assert forall|i: int| #[trigger]
                self.used(i) <==> (old(self).used(i) && i != id.index) by {
                if 0 <= i < self.generations@.len() && i != id.index {
                    if free.contains(i as u32) {
                        let k = choose|k: int| 0 <= k < free.len() && free[k] == i as u32;
                        assert(k != old_free.len());
                        assert(old_free[k] == i as u32);
                    }
                    if old_free.contains(i as u32) {
                        let k = choose|k: int| 0 <= k < old_free.len() && old_free[k] == i as u32;
                        assert(free[k] == i as u32);
                    }
                }
                if i == id.index {
                    assert(free[old_free.len() as int] == id.index);
                }
            }
            assert forall|i: int| 0 <= i < self.in_use@.len() implies (#[trigger] self.in_use@[i]
                <==> self.used(i)) by {
                assert(self.used(i) <==> (old(self).used(i) && i != id.index));
                if i != id.index {
                    assert(self.in_use@[i] == old_use[i]);
                }
            }
        }
    }
}

/// How many entries of `freed` name slot `i`.
pub open spec fn times_freed(freed: Seq<Option<u32>>, i: u32) -> nat
    decreases freed.len(),
{
    if freed.len() == 0 {
        0
    } else {
        times_freed(freed.drop_last(), i) + if freed.last() == Some(i) {
            1nat
        } else {
            0nat
        }
    }
}

/// One call's effect on the generations: a successful deallocation of slot `i`
/// (`Some(i)`) bumps that slot's generation by one; anything else (an allocation,
/// or a deallocation that returned `false`) keeps every generation and at most
/// adds a new slot at generation 0.
pub open spec fn generation_step(before: Seq<u32>, after: Seq<u32>, freed: Option<u32>) -> bool {
    match freed {
        Some(i) => {
            &&& i < before.len()
            &&& before[i as int] < u32::MAX
            &&& after == before.update(i as int, (before[i as int] + 1) as u32)
        },
        None => after == before || after == before.push(0),
    }
}

proof fn lemma_generations_count_frees(gens: Seq<Seq<u32>>, freed: Seq<Option<u32>>)
    requires
        gens.len() == freed.len() + 1,
        gens[0] == Seq::<u32>::empty(),
        forall|k: int|
            0 <= k < freed.len() ==> generation_step(gens[k], gens[k + 1], #[trigger] freed[k]),
    ensures
        gens.last().len() <= freed.len(),
        forall|i: u32| i < gens.last().len() ==> #[trigger] gens.last()[i as int] == times_freed(freed, i),
        forall|i: u32| i >= gens.last().len() ==> #[trigger] times_freed(freed, i) == 0,
    decreases freed.len(),
{
    if freed.len() > 0 {
        let n = freed.len() - 1;
        let g0 = gens.drop_last();
        let f0 = freed.drop_last();
        assert forall|k: int| 0 <= k < f0.len() implies generation_step(
            g0[k],
            g0[k + 1],
            #[trigger] f0[k],
        ) by {
            assert(f0[k] == freed[k]);
            assert(g0[k] == gens[k] && g0[k + 1] == gens[k + 1]);
        }
        lemma_generations_count_frees(g0, f0);
        let before = gens[n];
        let after = gens[n + 1];
        assert(g0.last() == before);
        assert(gens.last() == after);
        assert(generation_step(before, after, freed[n]));
        assert(freed.last() == freed[n]);
        assert forall|i: u32| i < after.len() implies #[trigger] after[i as int] == times_freed(
            freed,
            i,
        ) by {
            assert(times_freed(freed, i) == times_freed(f0, i) + if freed.last() == Some(i) {
                1nat
            } else {
                0nat
            });
            if i < before.len() {
                assert(g0.last()[i as int] == times_freed(f0, i));
            } else {
                assert(times_freed(f0, i) == 0);
            }
            match freed[n] {
                Some(j) => {
                    if i == j {
                        assert(after[i as int] == before[i as int] + 1);
                    } else {
                        assert(after[i as int] == before[i as int]);
                    }
                },
                None => {
                    if i < before.len() {
                        assert(after[i as int] == before[i as int]);
                    } else {
                        assert(after[i as int] == 0);
                    }
                },
            }
        }
        assert forall|i: u32| i >= after.len() implies #[trigger] times_freed(freed, i) == 0 by {
            assert(times_freed(f0, i) == 0);
        }
    }
}

/// A slot's generation equals the number of times it was freed: along any history
/// of calls that starts from an empty allocator, where `freed[k]` names the slot
/// that the `k`-th call successfully deallocated (`None` for an allocation or a
/// refused deallocation), every slot's generation counts its deallocations.
pub proof fn generation_counts_frees(trace: Seq<EntityAllocator>, freed: Seq<Option<u32>>)
    requires
        trace.len() == freed.len() + 1,
        trace[0].generations() == Seq::<u32>::empty(),
        forall|k: int|
            0 <= k < freed.len() ==> generation_step(
                trace[k].generations(),
                trace[k + 1].generations(),
                #[trigger] freed[k],
            ),
    ensures
        forall|i: u32|
            i < trace.last().generations().len() ==> #[trigger] trace.last().generations()[i as int]
                == times_freed(freed, i),
{
    let gens = Seq::new(trace.len(), |k: int| trace[k].generations());
    assert forall|k: int| 0 <= k < freed.len() implies generation_step(
        gens[k],
        gens[k + 1],
        #[trigger] freed[k],
    ) by {
        assert(gens[k] == trace[k].generations());
        assert(gens[k + 1] == trace[k + 1].generations());
    }
    lemma_generations_count_frees(gens, freed);
    assert(gens.last() == trace.last().generations());
}

/// Every successful deallocation leaves the freed ID stale, and a stale ID stays
/// dead in every later allocator state: a handle to a destroyed entity is never
/// reported alive again.
pub proof fn stale_ids_stay_dead(earlier: &EntityAllocator, later: &EntityAllocator, id: EntityId)
    requires
        earlier.is_stale(id),
        later.descends_from(earlier),
    ensures
        later.is_stale(id),
        !later.spec_is_alive(id),
{
    assert(earlier.generations()[id.index as int] <= later.generations()[id.index as int]);
}

/// The alive counter always equals the number of slots in use.
pub proof fn alive_count_counts_slots_in_use(a: &EntityAllocator)
    requires
        a.wf(),
    ensures
        a.slots_in_use().finite(),
        a.spec_alive_count() == a.slots_in_use().len(),
{
    let n = a.generations().len() as int;
    let free = a.free_list();
    let range = vstd::set_lib::set_int_range(0, n);
    vstd::set_lib::lemma_int_range(0, n);
    let g = free.to_set();
    free.unique_seq_to_set();
    let f = |x: u32| x as int;
    let fs = g.map(f);
    assert(vstd::relations::injective_on(f, g));
    vstd::set_lib::lemma_map_size(g, fs, f);
    assert(fs.subset_of(range)) by {
        assert forall|i: int| fs.contains(i) implies range.contains(i) by {
            let x = choose|x: u32| g.contains(x) && f(x) == i;
            let k = choose|k: int| 0 <= k < free.len() && free[k] == x;
            a.reveal_wf_bounds(k);
        }
    }
    assert(range.intersect(fs) =~= fs);
    vstd::set_lib::lemma_set_difference_len(range, fs);
    assert(a.slots_in_use() =~= range.difference(fs)) by {
        assert forall|i: int| a.slots_in_use().contains(i) <==> range.difference(fs).contains(i) by {
            if 0 <= i < n {
                if free.contains(i as u32) {
                    assert(g.contains(i as u32));
                    assert(fs.contains(f(i as u32)));
                }
                if fs.contains(i) {
                    let x = choose|x: u32| g.contains(x) && f(x) == i;
                    assert(x == i as u32);
                }
            }
        }
    }
    a.reveal_wf_count();
}

impl EntityAllocator {
    /// The generation currently stored for every slot, by slot index.
    pub closed spec fn generations(&self) -> Seq<u32> {
        self.slots.generations@
    }

    /// The free-list of recycled slot indices; its last entry is reused first.
    pub closed spec fn free_list(&self) -> Seq<u32> {
        self.slots.free_indices@
    }

    /// The alive counter as kept by the allocator.
    pub closed spec fn spec_alive_count(&self) -> u32 {
        self.slots.alive_count
    }

    /// A slot is in use when it has been handed out and not returned to the free-list.
    pub open spec fn slot_in_use(&self, i: int) -> bool {
        0 <= i < self.generations().len() && !self.free_list().contains(i as u32)
    }

    /// The set of slot indices currently in use.
    pub open spec fn slots_in_use(&self) -> Set<int> {
        Set::new(|i: int| self.slot_in_use(i))
    }

    /// The free-list only names existing slots.
    proof fn reveal_wf_bounds(&self, k: int)
        requires
            self.wf(),
            0 <= k < self.free_list().len(),
        ensures
            self.free_list()[k] < self.generations().len(),
    {
    }

    /// The counter equals the number of slots minus the length of the free-list,
    /// whose entries are distinct.
    proof fn reveal_wf_count(&self)
        requires
            self.wf(),
        ensures
            self.spec_alive_count() == self.generations().len() - self.free_list().len(),
            self.free_list().no_duplicates(),
    {
    }

    /// An ID is alive when its slot is in use and carries the ID's generation.
    pub open spec fn spec_is_alive(&self, id: EntityId) -> bool {
        &&& self.slot_in_use(id.index as int)
        &&& self.generations()[id.index as int] == id.generation
    }

    /// An ID is stale when its slot has moved on to a later generation.
    pub open spec fn is_stale(&self, id: EntityId) -> bool {
        id.index < self.generations().len() && id.generation < self.generations()[id.index as int]
    }

    /// `self` descends from `earlier`: no slot disappeared and no generation went back.
    pub open spec fn descends_from(&self, earlier: &EntityAllocator) -> bool {
        &&& earlier.generations().len() <= self.generations().len()
        &&& forall|i: int|
            0 <= i < earlier.generations().len() ==> #[trigger] earlier.generations()[i]
                <= self.generations()[i]
    }

    /// Internal consistency, kept by every operation: the free-list names distinct
    /// existing slots and the alive counter equals the number of slots in use.
    #[verifier::type_invariant]
    pub closed spec fn wf(&self) -> bool {
        self.slots.wf()
    }

    /// Create a new, empty allocator.
    pub fn new() -> (a: Self)
        ensures
            a.wf(),
            a.generations() == Seq::<u32>::empty(),
            a.free_list() == Seq::<u32>::empty(),
            a.spec_alive_count() == 0,
    {
        Self { slots: SlotTable::new() }
    }

    /// Allocate a fresh [`EntityId`]. Reuses freed slots when available.
    pub fn allocate(&mut self) -> (id: EntityId)
        requires
            old(self).spec_alive_count() < u32::MAX,
        ensures
            final(self).wf(),
            !old(self).slot_in_use(id.index as int),
            final(self).slot_in_use(id.index as int),
            forall|i: int|
                final(self).slot_in_use(i) <==> (old(self).slot_in_use(i) || i == id.index),
            final(self).spec_is_alive(id),
            final(self).spec_alive_count() == old(self).spec_alive_count() + 1,
            final(self).descends_from(old(self)),
            old(self).free_list().len() > 0 ==> {
                &&& id.index == old(self).free_list().last()
                &&& id.generation == old(self).generations()[id.index as int]
                &&& final(self).free_list() == old(self).free_list().drop_last()
                &&& final(self).generations() == old(self).generations()
            },
            old(self).free_list().len() == 0 ==> {
                &&& id.index == old(self).generations().len()
                &&& id.generation == 0
                &&& final(self).free_list() == old(self).free_list()
                &&& final(self).generations() == old(self).generations().push(0)
            },
    {
        proof {
            use_type_invariant(&*self);
        }
        let mut table = SlotTable::new();
        std::mem::swap(&mut table, &mut self.slots);
        let id = table.allocate();
        self.slots = table;
        proof {
            assert forall|i: int| #[trigger]
                self.slot_in_use(i) <==> (old(self).slot_in_use(i) || i == id.index) by {
                assert(self.slot_in_use(i) == self.slots.used(i));
                assert(old(self).slot_in_use(i) == old(self).slots.used(i));
            }
        }
        id
    }

    /// Deallocate an entity. Returns `true` if it was alive and is now freed.
    pub fn deallocate(&mut self, id: EntityId) -> (freed: bool)
        requires
            old(self).spec_is_alive(id) ==> id.generation < u32::MAX,
        ensures
            final(self).wf(),
            freed == old(self).spec_is_alive(id),
            freed ==> {
                &&& final(self).generations() == old(self).generations().update(
                    id.index as int,
                    (id.generation + 1) as u32,
                )
                &&& final(self).free_list() == old(self).free_list().push(id.index)
                &&& final(self).spec_alive_count() == old(self).spec_alive_count() - 1
                &&& !final(self).spec_is_alive(id)
                &&& final(self).is_stale(id)
                &&& forall|i: int|
                    final(self).slot_in_use(i) <==> (old(self).slot_in_use(i) && i != id.index)
            },
            !freed ==> *final(self) == *old(self),
            final(self).descends_from(old(self)),
    {
        proof {
            use_type_invariant(&*self);
        }
        if !self.is_alive(id) {
            return false;
        }
        let mut table = SlotTable::new();
        std::mem::swap(&mut table, &mut self.slots);
        table.deallocate(id);
        self.slots = table;
        proof {
            assert forall|i: int| #[trigger]
                self.slot_in_use(i) <==> (old(self).slot_in_use(i) && i != id.index) by {
                assert(self.slot_in_use(i) == self.slots.used(i));
                assert(old(self).slot_in_use(i) == old(self).slots.used(i));
            }
        }
        true
    }

    /// Check whether an entity ID refers to a currently alive entity: its slot is
    /// handed out and carries the ID's generation.
    pub fn is_alive(&self, id: EntityId) -> (b: bool)
        ensures
            b == self.spec_is_alive(id),
            b ==> id.index < usize::MAX,
    {
        proof {
            use_type_invariant(self);
        }
        let idx = id.index as usize;
        idx < self.slots.generations.len() && self.slots.in_use[idx]
            && self.slots.generations[idx] == id.generation
    }

    /// Whether the slot at `index` is handed out (exists and is not on the free-list).
    pub fn is_in_use(&self, index: u32) -> (b: bool)
        ensures
            b == self.slot_in_use(index as int),
    {
        proof {
            use_type_invariant(self);
        }
        let idx = index as usize;
        idx < self.slots.in_use.len() && self.slots.in_use[idx]
    }

    /// Number of currently alive entities.
    pub fn alive_count(&self) -> (n: u32)
        ensures
            n == self.spec_alive_count(),
    {
        self.slots.alive_count
    }
}

impl Default for EntityAllocator {
    fn default() -> (a: Self)
        ensures
            a.wf(),
            a.generations() == Seq::<u32>::empty(),
            a.free_list() == Seq::<u32>::empty(),
            a.spec_alive_count() == 0,
    {
        Self::new()
    }
}

} // verus!
