//! Latest-value channel: a single shared slot that a writer overwrites and a
//! reader samples or drains, with message counters.
//!
//! The slot's bookkeeping is [`LatestInner`], whose transitions are exact. The
//! writer and reader halves share one slot behind a lock, so what either half
//! observes depends on how calls from other threads interleave with its own.
use std::sync::Arc;
use vstd::prelude::*;
use vstd::rwlock::{RwLock, RwLockPredicate};

use crate::policy::ChannelStats;

verus! {

/// A counter after one more event; counters stop at `u64::MAX` rather than wrap,
/// so they never go back.
pub open spec fn bumped(n: u64) -> u64 {
    if n == u64::MAX {
        u64::MAX
    } else {
        (n + 1) as u64
    }
}

/// The slot after `value` is written: the value replaces any earlier one, the send
/// is counted, and so is the overwrite when a value was still unread.
pub open spec fn written<T>(s: LatestInner<T>, value: T) -> LatestInner<T> {
    LatestInner {
        value: Some(value),
        stats: ChannelStats {
            sent: bumped(s.stats.sent),
            overwritten: if s.value is Some {
                bumped(s.stats.overwritten)
            } else {
                s.stats.overwritten
            },
            ..s.stats
        },
    }
}

/// The slot after a take: emptied, with a receive counted when it held a value.
pub open spec fn after_take<T>(s: LatestInner<T>) -> LatestInner<T> {
    LatestInner {
        value: None,
        stats: ChannelStats {
            received: if s.value is Some {
                bumped(s.stats.received)
            } else {
                s.stats.received
            },
            ..s.stats
        },
    }
}

/// The slot after a read: unchanged but for a receive counted when it held a value.
pub open spec fn after_read<T>(s: LatestInner<T>) -> LatestInner<T> {
    LatestInner {
        value: s.value,
        stats: ChannelStats {
            received: if s.value is Some {
                bumped(s.stats.received)
            } else {
                s.stats.received
            },
            ..s.stats
        },
    }
}

/// A take returns the value of the latest write, and a second take returns nothing.
pub proof fn take_returns_latest_write<T>(s: LatestInner<T>, first: T, second: T)
    ensures
        written(written(s, first), second).value == Some(second),
        after_take(written(written(s, first), second)).value is None,
        written(written(s, first), second).stats.overwritten == bumped(
            written(s, first).stats.overwritten,
        ),
{
}

/// The slot's counters agree: nothing is ever rejected, and overwrites never
/// outnumber sends (while sends have not reached the counter's limit, a held value
/// is one send that was not overwritten).
pub open spec fn counts_consistent<T>(s: LatestInner<T>) -> bool {
    &&& s.stats.rejected == 0
    &&& s.stats.overwritten <= s.stats.sent
    &&& (s.value is Some && s.stats.sent < u64::MAX) ==> s.stats.overwritten < s.stats.sent
}

/// Writes, reads and takes keep the counters consistent: through the channel the
/// overwrite count never exceeds the send count, and nothing is rejected.
pub proof fn updates_keep_counts_consistent<T>(s: LatestInner<T>, value: T)
    requires
        counts_consistent(s),
    ensures
        counts_consistent(written(s, value)),
        counts_consistent(after_take(s)),
        counts_consistent(after_read(s)),
{
}

/// Reading never consumes: a read leaves the value for a later take.
pub proof fn read_keeps_value<T>(s: LatestInner<T>)
    ensures
        after_read(s).value == s.value,
{
}

/// The shared slot: the latest value, if any, and the channel's counters.
pub struct LatestInner<T> {
    pub value: Option<T>,
    pub stats: ChannelStats,
}

impl<T> LatestInner<T> {
    /// An empty slot with zeroed counters.
    pub fn new() -> (s: Self)
        ensures
            s.value is None,
            s.stats == (ChannelStats { sent: 0, received: 0, overwritten: 0, rejected: 0 }),
    {
        LatestInner { value: None, stats: ChannelStats { sent: 0, received: 0, overwritten: 0, rejected: 0 } }
    }

    /// Store `value`, replacing any earlier one; counts the send, and the overwrite
    /// when a value was still unread.
    pub fn record_write(&mut self, value: T)
        ensures
            *final(self) == written(*old(self), value),
    {
        if self.value.is_some() {
            self.stats.overwritten = self.stats.overwritten.saturating_add(1);
        }
        self.value = Some(value);
        self.stats.sent = self.stats.sent.saturating_add(1);
    }

    /// Remove and return the stored value; counts a receive when there was one.
    pub fn record_take(&mut self) -> (taken: Option<T>)
        ensures
            taken == old(self).value,
            *final(self) == after_take(*old(self)),
    {
        let value = self.value.take();
        if value.is_some() {
            self.stats.received = self.stats.received.saturating_add(1);
        }
        value
    }
}

impl<T: Clone> LatestInner<T> {
    /// Return a clone of the stored value, keeping it; counts a receive when there was one.
    pub fn record_read(&mut self) -> (read: Option<T>)
        ensures
            read is Some == old(self).value is Some,
            read is Some ==> cloned::<T>(old(self).value->Some_0, read->Some_0),
            *final(self) == after_read(*old(self)),
    {
        let value = match &self.value {
            Some(v) => Some(v.clone()),
            None => None,
        };
        if value.is_some() {
            self.stats.received = self.stats.received.saturating_add(1);
        }
        value
    }
}

/// The shared lock's invariant: the slot's counters are consistent
/// ([`counts_consistent`]).
pub struct ConsistentCounts;

impl<T> RwLockPredicate<LatestInner<T>> for ConsistentCounts {
    open spec fn inv(self, v: LatestInner<T>) -> bool {
        counts_consistent(v)
    }
}

/// A shared handle to the slot.
pub type SharedSlot<T> = Arc<RwLock<LatestInner<T>, ConsistentCounts>>;

/// Writing half of a latest-value channel.
pub struct LatestWriter<T> {
    inner: SharedSlot<T>,
}

/// Reading half of a latest-value channel.
pub struct LatestReader<T> {
    inner: SharedSlot<T>,
}

/// A latest-value channel: both halves share one slot.
pub struct LatestValue<T> {
    pub writer: LatestWriter<T>,
    pub reader: LatestReader<T>,
}

impl<T> LatestWriter<T> {
    /// The slot this half writes to.
    pub closed spec fn slot(&self) -> RwLock<LatestInner<T>, ConsistentCounts> {
        *self.inner
    }
}

impl<T> LatestReader<T> {
    /// The slot this half reads from.
    pub closed spec fn slot(&self) -> RwLock<LatestInner<T>, ConsistentCounts> {
        *self.inner
    }
}

/// Another handle to the same shared slot (`Arc::clone`).
#[verifier::external_body]
fn share_slot<T>(slot: &SharedSlot<T>) -> (other: SharedSlot<T>)
    ensures
        *other == **slot,
{
    Arc::clone(slot)
}

impl<T> LatestValue<T> {
    /// A fresh channel whose two halves share one empty slot.
    pub fn new() -> (c: Self)
        ensures
            c.writer.slot() == c.reader.slot(),
    {
        let lock = RwLock::new(LatestInner::new(), Ghost(ConsistentCounts));
        let inner = Arc::new(lock);
        let writer_inner = share_slot(&inner);
        Self { writer: LatestWriter { inner: writer_inner }, reader: LatestReader { inner } }
    }
}

impl<T> Clone for LatestWriter<T> {
    fn clone(&self) -> (c: Self)
        ensures
            c.slot() == self.slot(),
    {
        Self { inner: share_slot(&self.inner) }
    }
}

impl<T> Clone for LatestReader<T> {
    fn clone(&self) -> (c: Self)
        ensures
            c.slot() == self.slot(),
    {
        Self { inner: share_slot(&self.inner) }
    }
}

impl<T> LatestWriter<T> {
    /// Overwrite the slot with `value` (see [`LatestInner::record_write`]).
    pub fn write(&self, value: T) {
        let (mut slot, handle) = self.inner.acquire_write();
        slot.record_write(value);
        handle.release_write(slot);
    }

    /// The channel's counters at the moment of the call. Nothing is ever rejected,
    /// as an overwrite replaces the value instead of refusing it, and overwrites
    /// never outnumber sends.
    pub fn stats(&self) -> (s: ChannelStats)
        ensures
            s.rejected == 0,
            s.overwritten <= s.sent,
    {
        let handle = self.inner.acquire_read();
        let stats = handle.borrow().stats;
        handle.release_read();
        stats
    }
}

impl<T: Clone> LatestReader<T> {
    /// A clone of the latest value, if any (see [`LatestInner::record_read`]).
    /// Which value that is depends on the writes and takes made through every
    /// handle to the shared slot, which this contract does not track.
    pub fn read(&self) -> Option<T> {
        let (mut slot, handle) = self.inner.acquire_write();
        let value = slot.record_read();
        handle.release_write(slot);
        value
    }

    /// Remove and return the latest value, if any (see [`LatestInner::record_take`]).
    /// Which value that is depends on the writes and takes made through every
    /// handle to the shared slot, which this contract does not track.
    pub fn take(&self) -> Option<T> {
        let (mut slot, handle) = self.inner.acquire_write();
        let value = slot.record_take();
        handle.release_write(slot);
        value
    }

    /// The channel's counters at the moment of the call. Nothing is ever rejected,
    /// as an overwrite replaces the value instead of refusing it, and overwrites
    /// never outnumber sends.
    pub fn stats(&self) -> (s: ChannelStats)
        ensures
            s.rejected == 0,
            s.overwritten <= s.sent,
    {
        let handle = self.inner.acquire_read();
        let stats = handle.borrow().stats;
        handle.release_read();
        stats
    }
}

/// What each slot operation does. A write stores the value, counts one more send
/// and, when a value was still unread, one more overwrite. A take empties the slot
/// and a read keeps it; both count one more receive when a value was there. Counts
/// go up by one until they reach `u64::MAX`, where they stay; no other counter moves.
pub proof fn slot_operations_law<T>(s: LatestInner<T>, value: T)
    ensures
        written(s, value).value == Some(value),
        written(s, value).stats.sent == if s.stats.sent < u64::MAX {
            s.stats.sent + 1
        } else {
            u64::MAX as int
        },
        written(s, value).stats.overwritten == if s.value is Some && s.stats.overwritten
            < u64::MAX {
            s.stats.overwritten + 1
        } else if s.value is Some {
            u64::MAX as int
        } else {
            s.stats.overwritten as int
        },
        written(s, value).stats.received == s.stats.received,
        written(s, value).stats.rejected == s.stats.rejected,
        after_take(s).value is None,
        after_read(s).value == s.value,
        after_take(s).stats.received == after_read(s).stats.received,
        after_read(s).stats.received == if s.value is Some && s.stats.received < u64::MAX {
            s.stats.received + 1
        } else if s.value is Some {
            u64::MAX as int
        } else {
            s.stats.received as int
        },
        after_take(s).stats.sent == s.stats.sent && after_read(s).stats.sent == s.stats.sent,
        after_take(s).stats.overwritten == s.stats.overwritten && after_read(s).stats.overwritten
            == s.stats.overwritten,
        after_take(s).stats.rejected == s.stats.rejected && after_read(s).stats.rejected
            == s.stats.rejected,
{
}

} // verus!
