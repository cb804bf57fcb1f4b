//! Service health records and runtime status snapshots.
//!
//! Timestamps are microseconds on a clock that the runtime host reads; the
//! library only compares and stores them.
use vstd::prelude::*;

verus! {

/// Operational state of a runtime service.
#[derive(Debug, Clone, Copy, PartialEq, Eq, Structural)]
pub enum ServiceState {
    Created,
    Starting,
    Running,
    Paused,
    Stopping,
    Stopped,
    Faulted,
}

/// Health/status report for a runtime service.
#[derive(Debug, Clone, Copy, PartialEq, Eq)]
pub struct ServiceHealth {
    pub name: &'static str,
    pub state: ServiceState,
    pub thread_name: Option<&'static str>,
}

impl ServiceHealth {
    /// Create a new health record.
    pub fn new(name: &'static str, state: ServiceState, thread_name: Option<&'static str>) -> (h:
        Self)
        ensures
            h.name == name,
            h.state == state,
            h.thread_name == thread_name,
    {
        Self { name, state, thread_name }
    }
}

/// Cached latest status for a single runtime service.
#[derive(Debug, Clone, Copy, PartialEq, Eq)]
pub struct ServiceStatusSnapshot {
    pub name: &'static str,
    pub thread_name: Option<&'static str>,
    pub state: ServiceState,
    /// When the state last changed, in microseconds on the host's clock.
    pub last_changed_at: u64,
}

/// Point-in-time view of all runtime services.
#[derive(Debug, Clone, PartialEq, Eq)]
pub struct RuntimeSnapshot {
    /// When the snapshot was taken, in microseconds on the host's clock.
    pub captured_at: u64,
    pub services: Vec<ServiceStatusSnapshot>,
}

/// Compact periodic runtime summary derived from the cached service state.
#[derive(Debug, Clone, Copy, PartialEq, Eq)]
pub struct RuntimeSummary {
    /// When the summary was taken, in microseconds on the host's clock.
    pub captured_at: u64,
    pub total_services: usize,
    pub running: usize,
    pub paused: usize,
    pub stopping: usize,
    pub stopped: usize,
    pub faulted: usize,
}

} // verus!
