//! Attack-target bookkeeping used by the combat and death phases: who attacks
//! whom, who gets credit for a kill, and releasing attackers of a dead entity.
use vstd::prelude::*;

use crate::component::{AttackTarget, ComponentStore};
use crate::entity::EntityId;

verus! {

/// The entity at index `attacker` is attacking some entity in slot `index`.
pub open spec fn targets_index(store: ComponentStore<AttackTarget>, attacker: u32, index: u32) -> bool {
    store.spec_get(attacker) matches Some(AttackTarget(Some(t))) && t.index == index
}

/// The entity at index `attacker` has an attack target.
pub open spec fn has_target(store: ComponentStore<AttackTarget>, attacker: u32) -> bool {
    store.spec_get(attacker) matches Some(AttackTarget(Some(_)))
}

/// Every `(attacker index, target)` pair, in increasing attacker order.
pub fn attack_pairs(targets: &ComponentStore<AttackTarget>) -> (pairs: Vec<(u32, EntityId)>)
    ensures
        forall|k: int|
            0 <= k < pairs@.len() ==> targets.spec_get(#[trigger] pairs@[k].0) == Some(
                AttackTarget(Some(pairs@[k].1)),
            ),
        forall|k: int, l: int| 0 <= k < l < pairs@.len() ==> pairs@[k].0 < pairs@[l].0,
        forall|i: u32|
            #[trigger] has_target(*targets, i) ==> exists|k: int|
                0 <= k < pairs@.len() && pairs@[k].0 == i,
{
    let entries = targets.iter();
    let mut pairs: Vec<(u32, EntityId)> = Vec::new();
    let mut k: usize = 0;
    while k < entries.len()
        invariant
            k <= entries@.len(),
            forall|m: int|
                0 <= m < entries@.len() ==> targets.spec_get(#[trigger] entries@[m].0) == Some(
                    *entries@[m].1,
                ),
            forall|m: int, l: int| 0 <= m < l < entries@.len() ==> entries@[m].0 < entries@[l].0,
            forall|i: u32|
                #[trigger] targets.spec_get(i) is Some ==> exists|m: int|
                    0 <= m < entries@.len() && entries@[m].0 == i,
            forall|m: int|
                0 <= m < pairs@.len() ==> targets.spec_get(#[trigger] pairs@[m].0) == Some(
                    AttackTarget(Some(pairs@[m].1)),
                ),
            forall|m: int, l: int| 0 <= m < l < pairs@.len() ==> pairs@[m].0 < pairs@[l].0,
            forall|m: int| 0 <= m < pairs@.len() ==> exists|j: int|
                0 <= j < k && entries@[j].0 == #[trigger] pairs@[m].0,
            forall|j: int|
                0 <= j < k && #[trigger] has_target(*targets, entries@[j].0) ==> exists|m: int|
                    0 <= m < pairs@.len() && pairs@[m].0 == entries@[j].0,
        decreases entries@.len() - k,
    {
        let (index, at) = entries[k];
        match at.0 {
            Some(target) => {
                let ghost prev = pairs@;
                pairs.push((index, target));
                proof {
                    assert forall|m: int, l: int| 0 <= m < l < pairs@.len() implies pairs@[m].0
                        < pairs@[l].0 by {
                        if l == prev.len() {
                            let j = choose|j: int| 0 <= j < k && entries@[j].0 == prev[m].0;
                            assert(pairs@[m] == prev[m]);
                        }
                    }
                    assert forall|m: int| 0 <= m < pairs@.len() implies exists|j: int|
                        0 <= j < k + 1 && entries@[j].0 == #[trigger] pairs@[m].0 by {
                        if m < prev.len() {
                            assert(pairs@[m] == prev[m]);
                            let j = choose|j: int| 0 <= j < k && entries@[j].0 == prev[m].0;
                        } else {
                            assert(entries@[k as int].0 == pairs@[m].0);
                        }
                    }
                    assert forall|j: int|
                        0 <= j < k + 1 && #[trigger] has_target(*targets, entries@[j].0) implies exists|m: int|
                        0 <= m < pairs@.len() && pairs@[m].0 == entries@[j].0 by {
                        if j < k {
                            let m = choose|m: int| 0 <= m < prev.len() && prev[m].0 == entries@[j].0;
                            assert(pairs@[m] == prev[m]);
                        } else {
                            assert(pairs@[prev.len() as int].0 == entries@[j].0);
                        }
                    }
                }
            },
            None => {},
        }
        k = k + 1;
    }
    proof {
        assert forall|i: u32| #[trigger] has_target(*targets, i) implies exists|m: int|
            0 <= m < pairs@.len() && pairs@[m].0 == i by {
            let j = choose|j: int| 0 <= j < entries@.len() && entries@[j].0 == i;
            assert(has_target(*targets, entries@[j].0));
        }
    }
    pairs
}

/// The first attacker, in index order, whose target sits in slot `index`: the
/// entity credited with a kill.
pub fn first_attacker_of(targets: &ComponentStore<AttackTarget>, index: u32) -> (r: Option<u32>)
    ensures
        r matches Some(i) ==> targets_index(*targets, i, index) && forall|j: u32|
            j < i ==> !targets_index(*targets, j, index),
        r is None ==> forall|i: u32| !targets_index(*targets, i, index),
{
    let pairs = attack_pairs(targets);
    let mut k: usize = 0;
    while k < pairs.len()
        invariant
            k <= pairs@.len(),
            forall|m: int|
                0 <= m < pairs@.len() ==> targets.spec_get(#[trigger] pairs@[m].0) == Some(
                    AttackTarget(Some(pairs@[m].1)),
                ),
            forall|m: int, l: int| 0 <= m < l < pairs@.len() ==> pairs@[m].0 < pairs@[l].0,
            forall|i: u32|
                #[trigger] has_target(*targets, i) ==> exists|m: int|
                    0 <= m < pairs@.len() && pairs@[m].0 == i,
            forall|m: int| 0 <= m < k ==> (#[trigger] pairs@[m]).1.index != index,
        decreases pairs@.len() - k,
    {
        let (attacker, target) = pairs[k];
        if target.index == index {
            proof {
                assert forall|j: u32| j < attacker implies !targets_index(*targets, j, index) by {
                    if targets_index(*targets, j, index) {
                        assert(has_target(*targets, j));
                        let m = choose|m: int| 0 <= m < pairs@.len() && pairs@[m].0 == j;
                        if m >= k {
                            if m > k {
                                assert(pairs@[k as int].0 < pairs@[m].0);
                            }
                        } else {
                            assert(pairs@[m].1.index != index);
                        }
                    }
                }
            }
            return Some(attacker);
        }
        k = k + 1;
    }
    proof {
        assert forall|i: u32| !targets_index(*targets, i, index) by {
            if targets_index(*targets, i, index) {
                assert(has_target(*targets, i));
                let m = choose|m: int| 0 <= m < pairs@.len() && pairs@[m].0 == i;
                assert(pairs@[m].1.index != index);
            }
        }
    }
    None
}

/// Every attacker whose target sits in slot `index`, in increasing index order.
pub fn attackers_of(targets: &ComponentStore<AttackTarget>, index: u32) -> (found: Vec<u32>)
    ensures
        forall|k: int| 0 <= k < found@.len() ==> targets_index(*targets, #[trigger] found@[k], index),
        forall|k: int, l: int| 0 <= k < l < found@.len() ==> found@[k] < found@[l],
        forall|i: u32|
            #[trigger] targets_index(*targets, i, index) ==> found@.contains(i),
{
    let pairs = attack_pairs(targets);
    let mut found: Vec<u32> = Vec::new();
    let mut k: usize = 0;
    while k < pairs.len()
        invariant
            k <= pairs@.len(),
            forall|m: int|
                0 <= m < pairs@.len() ==> targets.spec_get(#[trigger] pairs@[m].0) == Some(
                    AttackTarget(Some(pairs@[m].1)),
                ),
            forall|m: int, l: int| 0 <= m < l < pairs@.len() ==> pairs@[m].0 < pairs@[l].0,
            forall|i: u32|
                #[trigger] has_target(*targets, i) ==> exists|m: int|
                    0 <= m < pairs@.len() && pairs@[m].0 == i,
            forall|j: int| 0 <= j < found@.len() ==> targets_index(*targets, #[trigger] found@[j], index),
            forall|j: int, l: int| 0 <= j < l < found@.len() ==> found@[j] < found@[l],
            forall|j: int| 0 <= j < found@.len() ==> exists|m: int|
                0 <= m < k && pairs@[m].0 == #[trigger] found@[j],
            forall|m: int|
                0 <= m < k && (#[trigger] pairs@[m]).1.index == index ==> found@.contains(pairs@[m].0),
        decreases pairs@.len() - k,
    {
        let (attacker, target) = pairs[k];
        if target.index == index {
            let ghost prev = found@;
            found.push(attacker);
            proof {
                assert(found@[prev.len() as int] == attacker);
                assert forall|j: int, l: int| 0 <= j < l < found@.len() implies found@[j] < found@[l] by {
                    if l == prev.len() {
                        assert(found@[j] == prev[j]);
                        let m = choose|m: int| 0 <= m < k && pairs@[m].0 == prev[j];
                    }
                }
                assert forall|j: int| 0 <= j < found@.len() implies exists|m: int|
                    0 <= m < k + 1 && pairs@[m].0 == #[trigger] found@[j] by {
                    if j < prev.len() {
                        assert(found@[j] == prev[j]);
                        let m = choose|m: int| 0 <= m < k && pairs@[m].0 == prev[j];
                    } else {
                        assert(pairs@[k as int].0 == found@[j]);
                    }
                }
                assert forall|m: int|
                    0 <= m < k + 1 && (#[trigger] pairs@[m]).1.index == index implies found@.contains(
                    pairs@[m].0) by {
                    if m < k {
                        assert(prev.contains(pairs@[m].0));
                        let j = choose|j: int| 0 <= j < prev.len() && prev[j] == pairs@[m].0;
                        assert(found@[j] == prev[j]);
                    }
                }
            }
        }
        k = k + 1;
    }
    proof {
        assert forall|i: u32| #[trigger] targets_index(*targets, i, index) implies found@.contains(i) by {
            assert(has_target(*targets, i));
            let m = choose|m: int| 0 <= m < pairs@.len() && pairs@[m].0 == i;
        }
    }
    found
}

/// Clear the attack target of every attacker whose target sits in slot `index`.
pub fn clear_attackers_of(targets: &mut ComponentStore<AttackTarget>, index: u32)
    ensures
        forall|i: u32|
            #[trigger] final(targets).spec_get(i) == if targets_index(*old(targets), i, index) {
                Some(AttackTarget(None))
            } else {
                old(targets).spec_get(i)
            },
        forall|i: u32| !#[trigger] targets_index(*final(targets), i, index),
        final(targets).slots().len() == old(targets).slots().len(),
{
    let found = attackers_of(targets, index);
    let ghost before = *targets;
    let mut k: usize = 0;
    while k < found.len()
        invariant
            k <= found@.len(),
            targets.slots().len() == before.slots().len(),
            forall|j: int| 0 <= j < found@.len() ==> targets_index(before, #[trigger] found@[j], index),
            forall|j: int, l: int| 0 <= j < l < found@.len() ==> found@[j] < found@[l],
            forall|i: u32|
                #[trigger] targets_index(before, i, index) ==> found@.contains(i),
            forall|i: u32|
                #[trigger] targets.spec_get(i) == if (exists|j: int| 0 <= j < k && found@[j] == i) {
                    Some(AttackTarget(None))
                } else {
                    before.spec_get(i)
                },
        decreases found@.len() - k,
    {
        let attacker = found[k];
        proof {
            assert(targets_index(before, found@[k as int], index));
            targets.lemma_slots_fit();
        }
        targets.insert(EntityId::new(attacker, 0), AttackTarget(None));
        proof {
            assert forall|i: u32| #[trigger] targets.spec_get(i) == if (exists|j: int|
                0 <= j < k + 1 && found@[j] == i) {
                Some(AttackTarget(None))
            } else {
                before.spec_get(i)
            } by {
                if i == attacker {
                    assert(found@[k as int] == i);
                } else {
                    if exists|j: int| 0 <= j < k + 1 && found@[j] == i {
                        let j = choose|j: int| 0 <= j < k + 1 && found@[j] == i;
                        assert(j < k);
                    }
                }
            }
        }
        k = k + 1;
    }
    proof {
        assert forall|i: u32| #[trigger] targets.spec_get(i) == if targets_index(before, i, index) {
            Some(AttackTarget(None))
        } else {
            before.spec_get(i)
        } by {
            if targets_index(before, i, index) {
                assert(found@.contains(i));
                let j = choose|j: int| 0 <= j < found@.len() && found@[j] == i;
            } else {
                if exists|j: int| 0 <= j < found@.len() && found@[j] == i {
                    let j = choose|j: int| 0 <= j < found@.len() && found@[j] == i;
                    assert(targets_index(before, found@[j], index));
                }
            }
        }
        assert forall|i: u32| !#[trigger] targets_index(*targets, i, index) by {
            assert(targets.spec_get(i) == if targets_index(before, i, index) {
                Some(AttackTarget(None))
            } else {
                before.spec_get(i)
            });
        }
    }
}

} // verus!
