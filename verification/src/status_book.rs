//! The runtime's cached per-service status table.
//!
//! The table keeps one record per service name, ordered by name, and folds in
//! health reports as they arrive; snapshots, summaries and change queries are
//! read from it.
use vstd::prelude::*;

use crate::health::{RuntimeSnapshot, RuntimeSummary, ServiceHealth, ServiceState, ServiceStatusSnapshot};
use crate::names::{compare_names, name_lt, name_lt_asymmetric, name_lt_transitive, NameOrder};

verus! {

/// Records are strictly ordered by name, so each name occurs at most once.
pub open spec fn names_sorted(s: Seq<ServiceStatusSnapshot>) -> bool {
    forall|k: int, l: int| 0 <= k < l < s.len() ==> name_lt(s[k].name@, s[l].name@)
}

/// The record after a report for an already known service: the state and, when
/// the report names one, the thread are taken over; the change time moves to
/// `now` only when the state changed.
pub open spec fn refreshed(
    old: ServiceStatusSnapshot,
    health: ServiceHealth,
    now: u64,
) -> ServiceStatusSnapshot {
    ServiceStatusSnapshot {
        name: old.name,
        thread_name: match health.thread_name {
            Some(t) => Some(t),
            None => old.thread_name,
        },
        state: health.state,
        last_changed_at: if old.state != health.state {
            now
        } else {
            old.last_changed_at
        },
    }
}

/// The record for a service reported for the first time.
pub open spec fn first_record(health: ServiceHealth, now: u64) -> ServiceStatusSnapshot {
    ServiceStatusSnapshot {
        name: health.name,
        thread_name: health.thread_name,
        state: health.state,
        last_changed_at: now,
    }
}

/// The position of the record named `name`, if the table holds one.
pub open spec fn has_name(s: Seq<ServiceStatusSnapshot>, name: Seq<char>) -> bool {
    exists|k: int| 0 <= k < s.len() && s[k].name@ == name
}

/// Number of records in state `state`.
pub open spec fn count_in_state(s: Seq<ServiceStatusSnapshot>, state: ServiceState) -> nat
    decreases s.len(),
{
    if s.len() == 0 {
        0
    } else {
        count_in_state(s.drop_last(), state) + if s.last().state == state {
            1nat
        } else {
            0nat
        }
    }
}

/// Records whose state changed after `since`.
pub open spec fn changed_after(since: u64) -> spec_fn(ServiceStatusSnapshot) -> bool {
    |s: ServiceStatusSnapshot| s.last_changed_at > since
}

/// Cached latest status of every service that has reported.
pub struct RuntimeStatusBook {
    services: Vec<ServiceStatusSnapshot>,
}

/// Fold one health report into a name-sorted record list.
fn fold_report(services: &mut Vec<ServiceStatusSnapshot>, health: ServiceHealth, now: u64)
    requires
        names_sorted(old(services)@),
    ensures
        names_sorted(final(services)@),
        exists|k: int|
            0 <= k < final(services)@.len() && final(services)@[k].name@
                == health.name@ && final(services)@[k].state == health.state,
        has_name(old(services)@, health.name@) ==> {
            let k = choose|k: int|
                0 <= k < old(services)@.len() && old(services)@[k].name@
                    == health.name@;
            final(services)@ == old(services)@.update(
                k,
                refreshed(old(services)@[k], health, now),
            )
        },
        !has_name(old(services)@, health.name@) ==> exists|p: int|
            0 <= p <= old(services)@.len() && final(services)@
                == old(services)@.insert(p, first_record(health, now)),
{
    let ghost old_s = services@;
    let mut i: usize = 0;
    while i < services.len()
        invariant
            services@ == old_s,
            old(services)@ == old_s,
            names_sorted(old_s),
            i <= old_s.len(),
            forall|k: int| 0 <= k < i ==> name_lt(#[trigger] old_s[k].name@, health.name@),
        decreases old_s.len() - i,
    {
        let existing = services[i];
        match compare_names(existing.name, health.name) {
            NameOrder::Equal => {
                let thread_name = match health.thread_name {
                    Some(t) => Some(t),
                    None => existing.thread_name,
                };
                let last_changed_at = if existing.state != health.state {
                    now
                } else {
                    existing.last_changed_at
                };
                let updated = ServiceStatusSnapshot {
                    name: existing.name,
                    thread_name,
                    state: health.state,
                    last_changed_at,
                };
                services.set(i, updated);
                proof {
                    assert(old_s[i as int].name@ == health.name@);
                    assert(has_name(old(services)@, health.name@));
                    let k = choose|k: int|
                        0 <= k < old(services)@.len() && old(services)@[k].name@
                            == health.name@;
                    if k < i {
                        name_lt_asymmetric(old_s[k].name@, health.name@);
                    } else if k > i {
                        name_lt_asymmetric(old_s[i as int].name@, old_s[k].name@);
                    }
                    assert(k == i);
                    assert(services@[k].name@ == health.name@);
                    assert(services@ =~= old_s.update(
                        k,
                        refreshed(old_s[k], health, now),
                    ));
                }
                return;
            },
            NameOrder::Greater => {
                let fresh = ServiceStatusSnapshot {
                    name: health.name,
                    thread_name: health.thread_name,
                    state: health.state,
                    last_changed_at: now,
                };
                services.insert(i, fresh);
                proof {
                    let s = services@;
                    assert(s == old_s.insert(i as int, first_record(health, now)));
                    assert forall|k: int| 0 <= k < old_s.len() implies old_s[k].name@
                        != health.name@ by {
                        if k < i {
                            name_lt_asymmetric(old_s[k].name@, health.name@);
                        } else if k > i {
                            name_lt_transitive(health.name@, old_s[i as int].name@, old_s[k].name@);
                            name_lt_asymmetric(health.name@, old_s[k].name@);
                        } else {
                            name_lt_asymmetric(health.name@, old_s[k].name@);
                        }
                    }
                    assert forall|k: int, l: int| 0 <= k < l < s.len() implies name_lt(
                        s[k].name@,
                        s[l].name@,
                    ) by {
                        if l < i {
                        } else if l == i {
                        } else if k < i {
                            assert(s[l] == old_s[l - 1]);
                            if l - 1 > i {
                                name_lt_transitive(
                                    old_s[k].name@,
                                    old_s[i as int].name@,
                                    old_s[l - 1].name@,
                                );
                            } else {
                                name_lt_transitive(
                                    old_s[k].name@,
                                    health.name@,
                                    old_s[l - 1].name@,
                                );
                            }
                        } else if k == i {
                            assert(s[l] == old_s[l - 1]);
                            if l - 1 > i {
                                name_lt_transitive(
                                    health.name@,
                                    old_s[i as int].name@,
                                    old_s[l - 1].name@,
                                );
                            }
                        } else {
                            assert(s[k] == old_s[k - 1]);
                            assert(s[l] == old_s[l - 1]);
                        }
                    }
                    assert(s[i as int].name@ == health.name@);
                    assert(!has_name(old(services)@, health.name@));
                    assert(0 <= i <= old_s.len() && services@ == old(services)@.insert(
                        i as int,
                        first_record(health, now),
                    ));
                }
                return;
            },
            NameOrder::Less => {},
        }
        i = i + 1;
    }
    let fresh = ServiceStatusSnapshot {
        name: health.name,
        thread_name: health.thread_name,
        state: health.state,
        last_changed_at: now,
    };
    services.push(fresh);
    proof {
        let s = services@;
        assert(s =~= old_s.insert(old_s.len() as int, first_record(health, now)));
        assert forall|k: int| 0 <= k < old_s.len() implies old_s[k].name@ != health.name@ by {
            name_lt_asymmetric(old_s[k].name@, health.name@);
        }
        assert forall|k: int, l: int| 0 <= k < l < s.len() implies name_lt(
            s[k].name@,
            s[l].name@,
        ) by {
            if l == old_s.len() {
                assert(s[k] == old_s[k]);
            }
        }
        assert(s[old_s.len() as int].name@ == health.name@);
        assert(!has_name(old(services)@, health.name@));
        let p = old_s.len() as int;
        assert(services@ == old(services)@.insert(p, first_record(health, now)));
    }
}

impl RuntimeStatusBook {
    /// The records, in name order.
    pub closed spec fn entries(&self) -> Seq<ServiceStatusSnapshot> {
        self.services@
    }

    /// The records stay ordered by name, one per service.
    #[verifier::type_invariant]
    spec fn sorted(&self) -> bool {
        names_sorted(self.services@)
    }

    /// An empty table.
    pub fn new() -> (b: Self)
        ensures
            b.entries() == Seq::<ServiceStatusSnapshot>::empty(),
    {
        Self { services: Vec::new() }
    }

    /// Fold one health report, received at time `now`, into the table.
    pub fn ingest(&mut self, health: ServiceHealth, now: u64)
        ensures
            names_sorted(final(self).entries()),
            exists|k: int|
                0 <= k < final(self).entries().len() && final(self).entries()[k].name@
                    == health.name@ && final(self).entries()[k].state == health.state,
            has_name(old(self).entries(), health.name@) ==> {
                let k = choose|k: int|
                    0 <= k < old(self).entries().len() && old(self).entries()[k].name@
                        == health.name@;
                final(self).entries() == old(self).entries().update(
                    k,
                    refreshed(old(self).entries()[k], health, now),
                )
            },
            !has_name(old(self).entries(), health.name@) ==> exists|p: int|
                0 <= p <= old(self).entries().len() && final(self).entries()
                    == old(self).entries().insert(p, first_record(health, now)),
    {
        proof {
            use_type_invariant(&*self);
        }
        let mut services = Vec::new();
        std::mem::swap(&mut services, &mut self.services);
        fold_report(&mut services, health, now);
        self.services = services;
        proof {
            let k = choose|k: int|
                0 <= k < self.services@.len() && self.services@[k].name@ == health.name@
                    && self.services@[k].state == health.state;
            assert(self.entries()[k] == self.services@[k]);
        }
    }

    /// Copy of all records, in name order, stamped with the capture time.
    pub fn snapshot(&self, captured_at: u64) -> (snap: RuntimeSnapshot)
        ensures
            snap.captured_at == captured_at,
            snap.services@ == self.entries(),
    {
        let mut services: Vec<ServiceStatusSnapshot> = Vec::new();
        let mut i: usize = 0;
        while i < self.services.len()
            invariant
                i <= self.services@.len(),
                services@ == self.services@.subrange(0, i as int),
            decreases self.services@.len() - i,
        {
            services.push(self.services[i]);
            i = i + 1;
            assert(services@ =~= self.services@.subrange(0, i as int));
        }
        assert(services@ =~= self.services@);
        RuntimeSnapshot { captured_at, services }
    }

    /// Counts of services per state, stamped with the capture time.
    pub fn summary(&self, captured_at: u64) -> (s: RuntimeSummary)
        ensures
            s.captured_at == captured_at,
            s.total_services == self.entries().len(),
            s.running == count_in_state(self.entries(), ServiceState::Running),
            s.paused == count_in_state(self.entries(), ServiceState::Paused),
            s.stopping == count_in_state(self.entries(), ServiceState::Stopping),
            s.stopped == count_in_state(self.entries(), ServiceState::Stopped),
            s.faulted == count_in_state(self.entries(), ServiceState::Faulted),
    {
        let mut summary = RuntimeSummary {
            captured_at,
            total_services: self.services.len(),
            running: 0,
            paused: 0,
            stopping: 0,
            stopped: 0,
            faulted: 0,
        };
        let ghost all = self.services@;
        let mut i: usize = 0;
        while i < self.services.len()
            invariant
                all == self.services@,
                i <= all.len(),
                summary.captured_at == captured_at,
                summary.total_services == all.len(),
                summary.running == count_in_state(all.subrange(0, i as int), ServiceState::Running),
                summary.paused == count_in_state(all.subrange(0, i as int), ServiceState::Paused),
                summary.stopping == count_in_state(
                    all.subrange(0, i as int),
                    ServiceState::Stopping,
                ),
                summary.stopped == count_in_state(all.subrange(0, i as int), ServiceState::Stopped),
                summary.faulted == count_in_state(all.subrange(0, i as int), ServiceState::Faulted),
            decreases all.len() - i,
        {
            let ghost pre = all.subrange(0, i as int);
            let ghost post = all.subrange(0, i as int + 1);
            assert(post.drop_last() =~= pre);
            proof {
                lemma_count_bounded(pre, ServiceState::Running);
                lemma_count_bounded(pre, ServiceState::Paused);
                lemma_count_bounded(pre, ServiceState::Stopping);
                lemma_count_bounded(pre, ServiceState::Stopped);
                lemma_count_bounded(pre, ServiceState::Faulted);
            }
            match self.services[i].state {
                ServiceState::Running => summary.running = summary.running + 1,
                ServiceState::Paused => summary.paused = summary.paused + 1,
                ServiceState::Stopping => summary.stopping = summary.stopping + 1,
                ServiceState::Stopped => summary.stopped = summary.stopped + 1,
                ServiceState::Faulted => summary.faulted = summary.faulted + 1,
                ServiceState::Created | ServiceState::Starting => {},
            }
            i = i + 1;
        }
        assert(all.subrange(0, all.len() as int) =~= all);
        summary
    }

    /// The records whose state changed after `since`, in name order.
    pub fn changed_since(&self, since: u64) -> (out: Vec<ServiceStatusSnapshot>)
        ensures
            out@ == self.entries().filter(changed_after(since)),
    {
        let ghost all = self.services@;
        let mut out: Vec<ServiceStatusSnapshot> = Vec::new();
        let mut i: usize = 0;
        while i < self.services.len()
            invariant
                all == self.services@,
                i <= all.len(),
                out@ == all.subrange(0, i as int).filter(changed_after(since)),
            decreases all.len() - i,
        {
            let e = self.services[i];
            proof {
                reveal(Seq::filter);
                let next = all.subrange(0, i as int + 1);
                assert(next.drop_last() =~= all.subrange(0, i as int));
                assert(next.last() == e);
                assert(changed_after(since)(e) == (e.last_changed_at > since));
                assert(next.filter(changed_after(since)) == if changed_after(since)(e) {
                    all.subrange(0, i as int).filter(changed_after(since)).push(e)
                } else {
                    all.subrange(0, i as int).filter(changed_after(since))
                });
            }
            if e.last_changed_at > since {
                out.push(e);
            }
            i = i + 1;
        }
        assert(all.subrange(0, all.len() as int) =~= all);
        out
    }
}

/// A count of records never exceeds the number of records.
pub proof fn lemma_count_bounded(s: Seq<ServiceStatusSnapshot>, state: ServiceState)
    ensures
        count_in_state(s, state) <= s.len(),
    decreases s.len(),
{
    if s.len() > 0 {
        lemma_count_bounded(s.drop_last(), state);
    }
}

/// The per-state counts of a summary never add up to more than the number of
/// services.
pub proof fn summary_counts_within_total(s: Seq<ServiceStatusSnapshot>)
    ensures
        count_in_state(s, ServiceState::Running) + count_in_state(s, ServiceState::Paused)
            + count_in_state(s, ServiceState::Stopping) + count_in_state(
            s,
            ServiceState::Stopped,
        ) + count_in_state(s, ServiceState::Faulted) <= s.len(),
    decreases s.len(),
{
    if s.len() > 0 {
        summary_counts_within_total(s.drop_last());
    }
}

/// Folding a report into the table. When the service is already listed, the table
/// keeps its length and every other record; the service's record keeps its name,
/// takes the reported state, takes the reported thread when the report names one
/// (else keeps its own), and its change time becomes `now` exactly when the state
/// changed. When the service is new, one record is added, holding the report's
/// name, thread and state with change time `now`, and the records before and after
/// it keep their order.
pub proof fn ingest_law(
    before: Seq<ServiceStatusSnapshot>,
    after: Seq<ServiceStatusSnapshot>,
    health: ServiceHealth,
    now: u64,
    k: int,
)
    requires
        names_sorted(before),
        has_name(before, health.name@) ==> {
            let k = choose|k: int|
                0 <= k < before.len() && before[k].name@ == health.name@;
            after == before.update(k, refreshed(before[k], health, now))
        },
        !has_name(before, health.name@) ==> exists|p: int|
            0 <= p <= before.len() && after == before.insert(p, first_record(health, now)),
    ensures
        (0 <= k < before.len() && before[k].name@ == health.name@) ==> {
            &&& after.len() == before.len()
            &&& after[k].name == before[k].name
            &&& after[k].state == health.state
            &&& after[k].thread_name == (match health.thread_name {
                Some(t) => Some(t),
                None => before[k].thread_name,
            })
            &&& after[k].last_changed_at == (if before[k].state != health.state {
                now
            } else {
                before[k].last_changed_at
            })
            &&& forall|j: int| 0 <= j < before.len() && j != k ==> after[j] == before[j]
        },
        (forall|j: int| 0 <= j < before.len() ==> before[j].name@ != health.name@) ==> exists|
            p: int,
        |
            {
                &&& 0 <= p <= before.len()
                &&& after.len() == before.len() + 1
                &&& after[p].name == health.name
                &&& after[p].thread_name == health.thread_name
                &&& after[p].state == health.state
                &&& after[p].last_changed_at == now
                &&& forall|j: int| 0 <= j < p ==> after[j] == before[j]
                &&& forall|j: int| p < j < after.len() ==> after[j] == before[j - 1]
            },
{
    if 0 <= k < before.len() && before[k].name@ == health.name@ {
        let c = choose|c: int| 0 <= c < before.len() && before[c].name@ == health.name@;
        if c < k {
            name_lt_asymmetric(before[c].name@, before[k].name@);
        } else if c > k {
            name_lt_asymmetric(before[k].name@, before[c].name@);
        }
        assert(c == k);
    }
    if forall|j: int| 0 <= j < before.len() ==> before[j].name@ != health.name@ {
        assert(!has_name(before, health.name@));
        let p = choose|p: int|
            0 <= p <= before.len() && after == before.insert(p, first_record(health, now));
        assert(after[p] == first_record(health, now));
    }
}

} // verus!
