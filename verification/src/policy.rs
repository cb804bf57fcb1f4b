//! Queue policies and channel statistics for the runtime dataflow primitives.
use vstd::prelude::*;

verus! {

#[derive(Debug, Clone, Copy, PartialEq, Eq, Structural)]
pub enum OverflowPolicy {
    Block,
    DropNewest,
    DropOldest,
    Reject,
}

#[derive(Debug, Clone, Copy, PartialEq, Eq, Structural)]
pub enum DeliverySemantics {
    ReliableQueue,
    LatestOnly,
}

#[derive(Debug, Clone, Copy, PartialEq, Eq, Structural)]
pub struct QueuePolicy {
    pub capacity: usize,
    pub overflow: OverflowPolicy,
    pub semantics: DeliverySemantics,
}

impl QueuePolicy {
    /// A bounded, blocking, reliable queue of the given capacity.
    pub fn bounded(capacity: usize) -> (p: Self)
        ensures
            p.capacity == capacity,
            p.overflow == OverflowPolicy::Block,
            p.semantics == DeliverySemantics::ReliableQueue,
    {
        Self { capacity, overflow: OverflowPolicy::Block, semantics: DeliverySemantics::ReliableQueue }
    }
}

/// Message counters kept by every channel.
#[derive(Debug, Clone, Copy, PartialEq, Eq, Structural)]
pub struct ChannelStats {
    pub sent: u64,
    pub received: u64,
    pub overwritten: u64,
    pub rejected: u64,
}

impl Default for ChannelStats {
    fn default() -> (s: Self)
        ensures
            s == (ChannelStats { sent: 0, received: 0, overwritten: 0, rejected: 0 }),
    {
        ChannelStats { sent: 0, received: 0, overwritten: 0, rejected: 0 }
    }
}

} // verus!
