//! Gameplay effects: kinds, stacking policies, containers, and how applying an
//! effect updates an entity's container.
//!
//! Durations and payload amounts are carried as an opaque scalar `A` (the
//! simulation uses `f32`); stacking only copies them.
use vstd::prelude::*;

use crate::component::ComponentStore;
use crate::entity::EntityId;
use crate::rules::DamageKind;

verus! {

#[derive(Debug, Clone, Copy, PartialEq, Eq, Structural)]
pub enum EffectCategory {
    Buff,
    Debuff,
    Aura,
    DamageOverTime,
    HealOverTime,
    CrowdControl,
    Triggered,
}

#[derive(Debug, Clone, Copy, PartialEq, Eq, Hash, Structural)]
pub enum EffectKind {
    StatModifier,
    PeriodicDamage,
    PeriodicHeal,
    Stun,
    Slow,
    Silence,
    Custom(u32),
}

#[derive(Debug, Clone, Copy, PartialEq, Eq, Structural)]
pub enum StackPolicy {
    RefreshDuration,
    AddStackRefreshDuration,
    IndependentInstance,
}

/// Effect-specific data; `A` is the simulation's scalar type.
#[derive(Debug, Clone, Copy)]
pub enum EffectPayload<A> {
    StatModifier { health_bonus: A },
    PeriodicDamage { amount_per_tick: A, kind: DamageKind },
    PeriodicHeal { amount_per_tick: A },
    Stun,
    Slow { multiplier: A },
    Silence,
    Custom(u32),
}

/// One applied effect; `A` is the simulation's scalar type for durations and amounts.
#[derive(Debug, Clone, Copy)]
pub struct EffectInstance<A> {
    pub id: u32,
    pub kind: EffectKind,
    pub category: EffectCategory,
    pub remaining_duration: A,
    pub total_duration: A,
    pub stacks: u16,
    pub max_stacks: u16,
    pub stack_policy: StackPolicy,
    pub source: Option<EntityId>,
    pub payload: EffectPayload<A>,
}

/// The effects active on one entity, in application order.
#[derive(Debug, Clone)]
pub struct EffectContainer<A> {
    pub effects: Vec<EffectInstance<A>>,
}

/// `i` is the position of the first effect of kind `kind`.
pub open spec fn is_first_of_kind<A>(effects: Seq<EffectInstance<A>>, kind: EffectKind, i: int) -> bool {
    &&& 0 <= i < effects.len()
    &&& effects[i].kind == kind
    &&& forall|j: int| 0 <= j < i ==> effects[j].kind != kind
}

/// Some effect has kind `kind`.
pub open spec fn has_kind<A>(effects: Seq<EffectInstance<A>>, kind: EffectKind) -> bool {
    exists|i: int| 0 <= i < effects.len() && effects[i].kind == kind
}

/// The position of the first effect of kind `kind` (meaningful when one exists).
pub open spec fn first_of_kind<A>(effects: Seq<EffectInstance<A>>, kind: EffectKind) -> int {
    choose|i: int| is_first_of_kind(effects, kind, i)
}

/// The stack count after adding `added` stacks, capped at `max`.
pub open spec fn capped_stacks(current: u16, added: u16, max: u16) -> u16 {
    if current + added <= max {
        (current + added) as u16
    } else {
        max
    }
}

/// The matched effect after a refresh: both durations take the new total.
pub open spec fn refreshed<A>(existing: EffectInstance<A>, incoming: EffectInstance<A>) -> EffectInstance<A> {
    EffectInstance {
        remaining_duration: incoming.total_duration,
        total_duration: incoming.total_duration,
        ..existing
    }
}

/// The matched effect after adding stacks: stacks grow up to the cap and the
/// remaining duration restarts at the new total.
pub open spec fn stacked<A>(existing: EffectInstance<A>, incoming: EffectInstance<A>) -> EffectInstance<A> {
    EffectInstance {
        stacks: capped_stacks(existing.stacks, incoming.stacks, existing.max_stacks),
        remaining_duration: incoming.total_duration,
        ..existing
    }
}

/// What applying `incoming` does to a list of effects: the new list, the effect
/// as it now stands, and whether stacks were added to an existing instance.
pub open spec fn applied<A>(effects: Seq<EffectInstance<A>>, incoming: EffectInstance<A>) -> (
    Seq<EffectInstance<A>>,
    EffectInstance<A>,
    bool,
) {
    match incoming.stack_policy {
        StackPolicy::RefreshDuration => if has_kind(effects, incoming.kind) {
            let i = first_of_kind(effects, incoming.kind);
            let e = refreshed(effects[i], incoming);
            (effects.update(i, e), e, false)
        } else {
            (effects.push(incoming), incoming, false)
        },
        StackPolicy::AddStackRefreshDuration => if has_kind(effects, incoming.kind) {
            let i = first_of_kind(effects, incoming.kind);
            let e = stacked(effects[i], incoming);
            (effects.update(i, e), e, true)
        } else {
            (effects.push(incoming), incoming, false)
        },
        StackPolicy::IndependentInstance => (effects.push(incoming), incoming, false),
    }
}

/// Stacking an effect onto an existing one must not overflow the `u16` stack count.
pub open spec fn stack_sum_fits<A>(effects: Seq<EffectInstance<A>>, incoming: EffectInstance<A>) -> bool {
    (incoming.stack_policy == StackPolicy::AddStackRefreshDuration && has_kind(
        effects,
        incoming.kind,
    )) ==> effects[first_of_kind(effects, incoming.kind)].stacks + incoming.stacks <= u16::MAX
}

/// No two effects share a kind.
pub open spec fn kinds_unique<A>(effects: Seq<EffectInstance<A>>) -> bool {
    forall|i: int, j: int| 0 <= i < j < effects.len() ==> effects[i].kind != effects[j].kind
}

/// After an effect is applied, the list holds an effect of its kind, and the
/// effect handed back has that kind and the incoming id or the matched one's id.
pub proof fn applied_effect_is_present<A>(effects: Seq<EffectInstance<A>>, incoming: EffectInstance<A>)
    ensures
        has_kind(applied(effects, incoming).0, incoming.kind),
        applied(effects, incoming).1.kind == incoming.kind,
{
    let r = applied(effects, incoming);
    if incoming.stack_policy != StackPolicy::IndependentInstance && has_kind(effects, incoming.kind) {
        let i = first_of_kind(effects, incoming.kind);
        let w = choose|w: int| 0 <= w < effects.len() && effects[w].kind == incoming.kind;
        lemma_first_exists(effects, incoming.kind, w);
        assert(r.0[i].kind == incoming.kind);
    } else {
        assert(r.0[effects.len() as int].kind == incoming.kind);
    }
}

/// Refreshing and stacking policies never create a second instance of a kind: a
/// container whose kinds are unique keeps them unique.
pub proof fn refresh_and_stack_keep_kinds_unique<A>(
    effects: Seq<EffectInstance<A>>,
    incoming: EffectInstance<A>,
)
    requires
        kinds_unique(effects),
        incoming.stack_policy != StackPolicy::IndependentInstance,
    ensures
        kinds_unique(applied(effects, incoming).0),
{
    let r = applied(effects, incoming).0;
    if has_kind(effects, incoming.kind) {
        let w = choose|w: int| 0 <= w < effects.len() && effects[w].kind == incoming.kind;
        lemma_first_exists(effects, incoming.kind, w);
        let i = first_of_kind(effects, incoming.kind);
        assert forall|a: int, b: int| 0 <= a < b < r.len() implies r[a].kind != r[b].kind by {
            assert(r[a].kind == effects[a].kind);
            assert(r[b].kind == effects[b].kind);
        }
    } else {
        assert forall|a: int, b: int| 0 <= a < b < r.len() implies r[a].kind != r[b].kind by {
            if b == effects.len() {
                assert(effects[a].kind != incoming.kind);
            }
        }
    }
}

/// Stacking never lifts a stack count above its cap.
pub proof fn stacks_stay_within_cap<A>(effects: Seq<EffectInstance<A>>, incoming: EffectInstance<A>)
    requires
        forall|i: int| 0 <= i < effects.len() ==> effects[i].stacks <= effects[i].max_stacks,
        incoming.stacks <= incoming.max_stacks,
    ensures
        forall|i: int|
            0 <= i < applied(effects, incoming).0.len() ==> applied(effects, incoming).0[i].stacks
                <= applied(effects, incoming).0[i].max_stacks,
{
    let r = applied(effects, incoming).0;
    if incoming.stack_policy != StackPolicy::IndependentInstance && has_kind(effects, incoming.kind) {
        let w = choose|w: int| 0 <= w < effects.len() && effects[w].kind == incoming.kind;
        lemma_first_exists(effects, incoming.kind, w);
    }
    assert forall|i: int| 0 <= i < r.len() implies r[i].stacks <= r[i].max_stacks by {
        if i < effects.len() {
            assert(effects[i].stacks <= effects[i].max_stacks);
        }
    }
}

/// Whenever some effect has the kind, a first one exists.
proof fn lemma_first_exists<A>(effects: Seq<EffectInstance<A>>, kind: EffectKind, w: int)
    requires
        0 <= w < effects.len(),
        effects[w].kind == kind,
    ensures
        is_first_of_kind(effects, kind, first_of_kind(effects, kind)),
    decreases w,
{
    if forall|j: int| 0 <= j < w ==> effects[j].kind != kind {
        assert(is_first_of_kind(effects, kind, w));
    } else {
        let j = choose|j: int| 0 <= j < w && effects[j].kind == kind;
        lemma_first_exists(effects, kind, j);
    }
}

proof fn lemma_first_of_kind<A>(effects: Seq<EffectInstance<A>>, kind: EffectKind, i: int)
    requires
        is_first_of_kind(effects, kind, i),
    ensures
        has_kind(effects, kind),
        first_of_kind(effects, kind) == i,
{
    let k = first_of_kind(effects, kind);
    assert(is_first_of_kind(effects, kind, k));
    if k < i {
        assert(effects[k].kind != kind);
    } else if k > i {
        assert(effects[i].kind != kind);
    }
}

impl<A: Copy> EffectContainer<A> {
    /// The position of the first effect of the given kind, if any.
    pub fn find_kind(&self, kind: EffectKind) -> (r: Option<usize>)
        ensures
            r is None <==> !has_kind(self.effects@, kind),
            r matches Some(i) ==> is_first_of_kind(self.effects@, kind, i as int),
    {
        let mut i: usize = 0;
        while i < self.effects.len()
            invariant
                i <= self.effects@.len(),
                forall|j: int| 0 <= j < i ==> self.effects@[j].kind != kind,
            decreases self.effects@.len() - i,
        {
            if self.effects[i].kind == kind {
                return Some(i);
            }
            i = i + 1;
        }
        None
    }

    /// Whether any active effect has the given kind.
    pub fn has_effect_kind(&self, kind: EffectKind) -> (b: bool)
        ensures
            b == has_kind(self.effects@, kind),
    {
        self.find_kind(kind).is_some()
    }

    /// Apply `incoming` under its stacking policy. Returns the effect as it now
    /// stands in the container and whether stacks were added to an existing instance.
    pub fn apply(&mut self, incoming: EffectInstance<A>) -> (r: (EffectInstance<A>, bool))
        requires
            stack_sum_fits(old(self).effects@, incoming),
        ensures
            (final(self).effects@, r.0, r.1) == applied(old(self).effects@, incoming),
    {
        match incoming.stack_policy {
            StackPolicy::RefreshDuration => {
                match self.find_kind(incoming.kind) {
                    Some(i) => {
                        proof {
                            lemma_first_of_kind(self.effects@, incoming.kind, i as int);
                        }
                        let mut e = self.effects[i];
                        e.remaining_duration = incoming.total_duration;
                        e.total_duration = incoming.total_duration;
                        self.effects.set(i, e);
                        (e, false)
                    },
                    None => {
                        self.effects.push(incoming);
                        (incoming, false)
                    },
                }
            },
            StackPolicy::AddStackRefreshDuration => {
                match self.find_kind(incoming.kind) {
                    Some(i) => {
                        proof {
                            lemma_first_of_kind(self.effects@, incoming.kind, i as int);
                        }
                        let mut e = self.effects[i];
                        let sum = e.stacks + incoming.stacks;
                        e.stacks = if sum <= e.max_stacks {
                            sum
                        } else {
                            e.max_stacks
                        };
                        e.remaining_duration = incoming.total_duration;
                        self.effects.set(i, e);
                        (e, true)
                    },
                    None => {
                        self.effects.push(incoming);
                        (incoming, false)
                    },
                }
            },
            StackPolicy::IndependentInstance => {
                self.effects.push(incoming);
                (incoming, false)
            },
        }
    }
}

/// Apply `incoming` to `entity`'s effect container, creating an empty container
/// first when the entity has none. Returns what [`EffectContainer::apply`] returns.
pub fn apply_effect_to_store<A: Copy>(
    store: &mut ComponentStore<EffectContainer<A>>,
    entity: EntityId,
    incoming: EffectInstance<A>,
) -> (r: (EffectInstance<A>, bool))
    requires
        entity.index + 1 <= usize::MAX,
        old(store).spec_get(entity.index) matches Some(c) ==> stack_sum_fits(c.effects@, incoming),
    ensures
        ({
            let before = match old(store).spec_get(entity.index) {
                Some(c) => c.effects@,
                None => Seq::<EffectInstance<A>>::empty(),
            };
            let after = applied(before, incoming);
            &&& final(store).spec_get(entity.index) is Some
            &&& final(store).spec_get(entity.index)->Some_0.effects@ == after.0
            &&& r.0 == after.1
            &&& r.1 == after.2
            &&& forall|i: u32|
                i != entity.index ==> final(store).spec_get(i) == old(store).spec_get(i)
        }),
{
    if !store.has(entity) {
        store.insert(entity, EffectContainer { effects: Vec::new() });
    }
    let ghost mid = *store;
    match store.get_mut(entity) {
        Some(container) => {
            container.apply(incoming)
        },
        None => {
            proof {
                assert(false);
            }
            (incoming, false)
        },
    }
}


/// Refreshing: when an effect of the incoming kind is present, applying a refreshing
/// effect changes only the first effect of that kind, and of it only the remaining
/// and total durations, both set to the incoming total duration; its id, kind,
/// category, stacks, cap, policy, source and payload stay. Nothing is added, and the
/// refreshed effect is handed back with no stacks added.
pub proof fn refresh_law<A>(
    effects: Seq<EffectInstance<A>>,
    incoming: EffectInstance<A>,
    i: int,
    after: Seq<EffectInstance<A>>,
    returned: EffectInstance<A>,
    stack_added: bool,
)
    requires
        (after, returned, stack_added) == applied(effects, incoming),
        incoming.stack_policy == StackPolicy::RefreshDuration,
        0 <= i < effects.len(),
        effects[i].kind == incoming.kind,
        forall|j: int| 0 <= j < i ==> effects[j].kind != incoming.kind,
    ensures
        after.len() == effects.len(),
        forall|j: int| 0 <= j < effects.len() && j != i ==> after[j] == effects[j],
        after[i].id == effects[i].id,
        after[i].kind == effects[i].kind,
        after[i].category == effects[i].category,
        after[i].stacks == effects[i].stacks,
        after[i].max_stacks == effects[i].max_stacks,
        after[i].stack_policy == effects[i].stack_policy,
        after[i].source == effects[i].source,
        after[i].payload == effects[i].payload,
        after[i].remaining_duration == incoming.total_duration,
        after[i].total_duration == incoming.total_duration,
        returned == after[i],
        !stack_added,
{
    lemma_first_of_kind(effects, incoming.kind, i);
}

/// Stacking: when an effect of the incoming kind is present, applying a stacking
/// effect changes only the first effect of that kind: its stacks become the sum of
/// its and the incoming stacks, capped at its own cap, and its remaining duration
/// restarts at the incoming total; everything else about it stays, its total
/// duration included. Nothing is added, and the updated effect is handed back with
/// stacks added.
pub proof fn stack_law<A>(
    effects: Seq<EffectInstance<A>>,
    incoming: EffectInstance<A>,
    i: int,
    after: Seq<EffectInstance<A>>,
    returned: EffectInstance<A>,
    stack_added: bool,
)
    requires
        (after, returned, stack_added) == applied(effects, incoming),
        incoming.stack_policy == StackPolicy::AddStackRefreshDuration,
        0 <= i < effects.len(),
        effects[i].kind == incoming.kind,
        forall|j: int| 0 <= j < i ==> effects[j].kind != incoming.kind,
        effects[i].stacks + incoming.stacks <= u16::MAX,
    ensures
        after.len() == effects.len(),
        forall|j: int| 0 <= j < effects.len() && j != i ==> after[j] == effects[j],
        after[i].stacks == if effects[i].stacks + incoming.stacks <= effects[i].max_stacks {
            effects[i].stacks + incoming.stacks
        } else {
            effects[i].max_stacks as int
        },
        after[i].remaining_duration == incoming.total_duration,
        after[i].total_duration == effects[i].total_duration,
        after[i].id == effects[i].id,
        after[i].kind == effects[i].kind,
        after[i].category == effects[i].category,
        after[i].max_stacks == effects[i].max_stacks,
        after[i].stack_policy == effects[i].stack_policy,
        after[i].source == effects[i].source,
        after[i].payload == effects[i].payload,
        returned == after[i],
        stack_added,
{
    lemma_first_of_kind(effects, incoming.kind, i);
}

/// Adding a new instance: an independent effect, or one whose kind no present
/// effect has, is appended unchanged and handed back with no stacks added.
pub proof fn new_instance_law<A>(
    effects: Seq<EffectInstance<A>>,
    incoming: EffectInstance<A>,
    after: Seq<EffectInstance<A>>,
    returned: EffectInstance<A>,
    stack_added: bool,
)
    requires
        (after, returned, stack_added) == applied(effects, incoming),
        incoming.stack_policy == StackPolicy::IndependentInstance || forall|j: int|
            0 <= j < effects.len() ==> effects[j].kind != incoming.kind,
    ensures
        after.len() == effects.len() + 1,
        forall|j: int| 0 <= j < effects.len() ==> after[j] == effects[j],
        after[effects.len() as int] == incoming,
        returned == incoming,
        !stack_added,
{
}

} // verus!
