//! Application lifecycle state machine.
use vstd::prelude::*;

verus! {

/// Represents the current state of the application.
#[derive(Debug, Clone, Copy, PartialEq, Eq, Structural)]
pub enum AppState {
    Init,
    Running,
    Paused,
    ShuttingDown,
}

/// The transition requested by each lifecycle call.
pub enum LifecycleEvent {
    Start,
    Pause,
    Resume,
    Shutdown,
}

/// The lifecycle transition relation: the state after `event` is applied in `state`.
/// Every request not listed leaves the state as it is.
pub open spec fn next_state(state: AppState, event: LifecycleEvent) -> AppState {
    match (state, event) {
        (AppState::Init, LifecycleEvent::Start) => AppState::Running,
        (AppState::Running, LifecycleEvent::Pause) => AppState::Paused,
        (AppState::Paused, LifecycleEvent::Resume) => AppState::Running,
        (_, LifecycleEvent::Shutdown) => AppState::ShuttingDown,
        (s, _) => s,
    }
}

/// Application lifecycle state machine.
pub struct AppLifecycle {
    state: AppState,
}

impl AppLifecycle {
    /// The current state.
    pub closed spec fn view_state(&self) -> AppState {
        self.state
    }

    /// Create a new lifecycle in the [`AppState::Init`] state.
    pub fn new() -> (l: Self)
        ensures
            l.view_state() == AppState::Init,
    {
        Self { state: AppState::Init }
    }

    /// Returns the current state.
    pub fn state(&self) -> (s: AppState)
        ensures
            s == self.view_state(),
    {
        self.state
    }

    /// Transition from [`AppState::Init`] to [`AppState::Running`].
    ///
    /// No-op if not currently in the `Init` state.
    pub fn start(&mut self)
        ensures
            final(self).view_state() == next_state(old(self).view_state(), LifecycleEvent::Start),
    {
        if self.state == AppState::Init {
            self.state = AppState::Running;
        }
    }

    /// Transition from [`AppState::Running`] to [`AppState::Paused`].
    ///
    /// No-op if not currently in the `Running` state.
    pub fn pause(&mut self)
        ensures
            final(self).view_state() == next_state(old(self).view_state(), LifecycleEvent::Pause),
    {
        if self.state == AppState::Running {
            self.state = AppState::Paused;
        }
    }

    /// Transition from [`AppState::Paused`] to [`AppState::Running`].
    ///
    /// No-op if not currently in the `Paused` state.
    pub fn resume(&mut self)
        ensures
            final(self).view_state() == next_state(old(self).view_state(), LifecycleEvent::Resume),
    {
        if self.state == AppState::Paused {
            self.state = AppState::Running;
        }
    }

    /// Transition to [`AppState::ShuttingDown`] from any state.
    pub fn shutdown(&mut self)
        ensures
            final(self).view_state() == next_state(
                old(self).view_state(),
                LifecycleEvent::Shutdown,
            ),
    {
        if self.state != AppState::ShuttingDown {
            self.state = AppState::ShuttingDown;
        }
    }

    /// Returns `true` if the current state is [`AppState::Running`].
    pub fn is_running(&self) -> (b: bool)
        ensures
            b == (self.view_state() == AppState::Running),
    {
        self.state == AppState::Running
    }

    /// Returns `true` if the application should quit (state is [`AppState::ShuttingDown`]).
    pub fn should_quit(&self) -> (b: bool)
        ensures
            b == (self.view_state() == AppState::ShuttingDown),
    {
        self.state == AppState::ShuttingDown
    }
}

impl Default for AppLifecycle {
    fn default() -> (l: Self)
        ensures
            l.view_state() == AppState::Init,
    {
        Self::new()
    }
}

/// Shutdown is absorbing: once shutting down, no request leaves that state.
pub proof fn shutdown_is_final(event: LifecycleEvent)
    ensures
        next_state(AppState::ShuttingDown, event) == AppState::ShuttingDown,
{
}

/// Shutdown is reachable from every state in a single request.
pub proof fn shutdown_from_any_state(state: AppState)
    ensures
        next_state(state, LifecycleEvent::Shutdown) == AppState::ShuttingDown,
{
}

/// Pausing a running application and resuming it brings it back to running,
/// and resuming a paused application then pausing it brings it back to paused.
pub proof fn pause_resume_round_trip()
    ensures
        next_state(next_state(AppState::Running, LifecycleEvent::Pause), LifecycleEvent::Resume)
            == AppState::Running,
        next_state(next_state(AppState::Paused, LifecycleEvent::Resume), LifecycleEvent::Pause)
            == AppState::Paused,
{
}

/// The only way into `Init` is to have been there: no request leads back to it.
pub proof fn init_is_never_reentered(state: AppState, event: LifecycleEvent)
    ensures
        next_state(state, event) == AppState::Init ==> state == AppState::Init,
{
}

/// Every request is idempotent: applying it twice is the same as once.
pub proof fn requests_are_idempotent(state: AppState, event: LifecycleEvent)
    ensures
        next_state(next_state(state, event), event) == next_state(state, event),
{
}

/// What each request does: starting moves an initialising application to running;
/// pausing moves a running one to paused; resuming moves a paused one back to
/// running; shutting down always leads to shutting down; every other request
/// leaves the state as it is.
pub proof fn lifecycle_transitions_law(state: AppState)
    ensures
        next_state(state, LifecycleEvent::Start) == if state == AppState::Init {
            AppState::Running
        } else {
            state
        },
        next_state(state, LifecycleEvent::Pause) == if state == AppState::Running {
            AppState::Paused
        } else {
            state
        },
        next_state(state, LifecycleEvent::Resume) == if state == AppState::Paused {
            AppState::Running
        } else {
            state
        },
        next_state(state, LifecycleEvent::Shutdown) == AppState::ShuttingDown,
{
}

} // verus!
