//! The fixed order of one simulation tick.
//!
//! Every tick first clears the previous tick's events, then runs each system
//! once in a fixed order, and finally advances the tick counter, so that equal
//! inputs give equal outputs.
use vstd::prelude::*;

verus! {

/// One step of a tick.
#[derive(Debug, Clone, Copy, PartialEq, Eq, Structural)]
pub enum TickStep {
    /// Forget the events of the previous tick.
    ClearEvents,
    /// Turn queued commands into targets, velocities and requests.
    Commands,
    /// Run ability rules for queued casts.
    Abilities,
    /// Run item rules for queued purchases.
    Items,
    /// Integrate velocities.
    Movement,
    /// Turn attacks in range into damage requests.
    Combat,
    /// Apply damage requests.
    Damage,
    /// Apply, tick and expire effects.
    Effects,
    /// Remove dead units.
    Deaths,
    /// Advance the tick counter.
    AdvanceCount,
}

/// The order of the steps of a tick.
pub open spec fn tick_order() -> Seq<TickStep> {
    seq![
        TickStep::ClearEvents,
        TickStep::Commands,
        TickStep::Abilities,
        TickStep::Items,
        TickStep::Movement,
        TickStep::Combat,
        TickStep::Damage,
        TickStep::Effects,
        TickStep::Deaths,
        TickStep::AdvanceCount,
    ]
}

/// The steps of one tick, in the order they run: the events are cleared before any
/// system runs, each step runs exactly once, and the counter advances last.
pub fn tick_schedule() -> (steps: Vec<TickStep>)
    ensures
        steps@ == tick_order(),
        steps@ == seq![
            TickStep::ClearEvents,
            TickStep::Commands,
            TickStep::Abilities,
            TickStep::Items,
            TickStep::Movement,
            TickStep::Combat,
            TickStep::Damage,
            TickStep::Effects,
            TickStep::Deaths,
            TickStep::AdvanceCount,
        ],
        steps@[0] == TickStep::ClearEvents,
        steps@.last() == TickStep::AdvanceCount,
        steps@.no_duplicates(),
{
    let steps = vec![
        TickStep::ClearEvents,
        TickStep::Commands,
        TickStep::Abilities,
        TickStep::Items,
        TickStep::Movement,
        TickStep::Combat,
        TickStep::Damage,
        TickStep::Effects,
        TickStep::Deaths,
        TickStep::AdvanceCount,
    ];
    assert(steps@ =~= tick_order());
    steps
}

} // verus!
