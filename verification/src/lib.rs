//! Deterministic simulation core and runtime bookkeeping, with machine-checked
//! contracts: generational entity allocation, sparse component storage,
//! lifecycle state machines, effect stacking and runtime status tracking.
use vstd::prelude::*;

pub mod command;
pub mod command_plan;
pub mod component;
pub mod control;
pub mod health;
pub mod policy;
pub mod rules;
pub mod schedule;
pub mod status_book;
pub mod targeting;
pub mod world;
pub mod effects;
pub mod entity;
pub mod inspector;
pub mod latest;
pub mod lifecycle;
pub mod names;

verus! {

} // verus!
