//! Rule-facing plain data: damage kinds, queued requests and the stock rule
//! and collision markers.
use vstd::prelude::*;

use crate::entity::EntityId;

verus! {

/// Kind of damage, deciding which mitigation applies.
#[derive(Debug, Clone, Copy, PartialEq, Eq, Structural)]
pub enum DamageKind {
    Physical,
    Magical,
    Pure,
}

/// The stock damage rule: physical damage is reduced by the target's armor,
/// other kinds pass through; results are never negative.
#[derive(Debug, Default, Clone, Copy)]
pub struct StandardDamageRule;

/// The no-collision backend: movement passes through everything.
#[derive(Debug, Default, Clone, Copy)]
pub struct NoCollision;

/// Request to remove an entity at the end of a tick.
#[derive(Debug, Clone, Copy, PartialEq, Eq, Structural)]
pub struct DespawnRequest {
    pub entity: EntityId,
}

/// Request to remove one effect instance from an entity.
#[derive(Debug, Clone, Copy, PartialEq, Eq, Structural)]
pub struct EffectRemoveRequest {
    pub entity: EntityId,
    pub effect_id: u32,
}

} // verus!
