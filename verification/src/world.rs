//! The game world -- entity allocator plus every component store.
//!
//! The world is generic over the simulation's component value types
//! ([`ComponentTypes`]); systems read and write its public stores directly.
use vstd::prelude::*;

use crate::component::{AttackTarget, ComponentStore, MoveTarget, Team};
use crate::effects::EffectContainer;
use crate::entity::{EntityAllocator, EntityId};

verus! {

/// The component value types a world stores.
pub trait ComponentTypes {
    type Position: Clone;
    type Velocity: Clone;
    type Rotation: Clone;
    type Health: Clone;
    type Mana: Clone;
    type CombatStats: Clone;
    type MoveSpeed: Clone;
    /// Point in space, as carried by move commands and move targets.
    type Point: Copy;
    type AbilitySlots: Clone;
    type UnitType: Clone;
    /// Scalar used for effect durations and amounts.
    type Scalar: Copy;
}

/// Central simulation state container.
pub struct World<C: ComponentTypes> {
    /// Entity slot allocator (generational IDs).
    pub entities: EntityAllocator,
    /// World-space positions.
    pub positions: ComponentStore<C::Position>,
    /// Linear velocities.
    pub velocities: ComponentStore<C::Velocity>,
    /// Yaw rotations.
    pub rotations: ComponentStore<C::Rotation>,
    /// Hit points.
    pub healths: ComponentStore<C::Health>,
    /// Mana points.
    pub manas: ComponentStore<C::Mana>,
    /// Combat parameters.
    pub combat_stats: ComponentStore<C::CombatStats>,
    /// Team affiliation.
    pub teams: ComponentStore<Team>,
    /// Movement speed.
    pub move_speeds: ComponentStore<C::MoveSpeed>,
    /// Current move-to target.
    pub move_targets: ComponentStore<MoveTarget<C::Point>>,
    /// Current attack target.
    pub attack_targets: ComponentStore<AttackTarget>,
    /// Ability loadout.
    pub ability_slots: ComponentStore<C::AbilitySlots>,
    /// Active gameplay effects.
    pub effect_containers: ComponentStore<EffectContainer<C::Scalar>>,
    /// Visual classification for rendering.
    pub unit_types: ComponentStore<C::UnitType>,
}

impl<C: ComponentTypes> World<C> {
    /// The entity has no component in any store.
    pub open spec fn bare(&self, index: u32) -> bool {
        &&& self.positions.spec_get(index) is None
        &&& self.velocities.spec_get(index) is None
        &&& self.rotations.spec_get(index) is None
        &&& self.healths.spec_get(index) is None
        &&& self.manas.spec_get(index) is None
        &&& self.combat_stats.spec_get(index) is None
        &&& self.teams.spec_get(index) is None
        &&& self.move_speeds.spec_get(index) is None
        &&& self.move_targets.spec_get(index) is None
        &&& self.attack_targets.spec_get(index) is None
        &&& self.ability_slots.spec_get(index) is None
        &&& self.effect_containers.spec_get(index) is None
        &&& self.unit_types.spec_get(index) is None
    }

    /// Every component store is exactly as in `earlier`.
    pub open spec fn stores_equal(&self, earlier: &World<C>) -> bool {
        &&& self.positions == earlier.positions
        &&& self.velocities == earlier.velocities
        &&& self.rotations == earlier.rotations
        &&& self.healths == earlier.healths
        &&& self.manas == earlier.manas
        &&& self.combat_stats == earlier.combat_stats
        &&& self.teams == earlier.teams
        &&& self.move_speeds == earlier.move_speeds
        &&& self.move_targets == earlier.move_targets
        &&& self.attack_targets == earlier.attack_targets
        &&& self.ability_slots == earlier.ability_slots
        &&& self.effect_containers == earlier.effect_containers
        &&& self.unit_types == earlier.unit_types
    }

    /// Every store keeps the component of every index but `index`.
    pub open spec fn others_kept(&self, earlier: &World<C>, index: u32) -> bool {
        forall|i: u32|
            i != index ==> {
                &&& self.positions.spec_get(i) == earlier.positions.spec_get(i)
                &&& self.velocities.spec_get(i) == earlier.velocities.spec_get(i)
                &&& self.rotations.spec_get(i) == earlier.rotations.spec_get(i)
                &&& self.healths.spec_get(i) == earlier.healths.spec_get(i)
                &&& self.manas.spec_get(i) == earlier.manas.spec_get(i)
                &&& self.combat_stats.spec_get(i) == earlier.combat_stats.spec_get(i)
                &&& self.teams.spec_get(i) == earlier.teams.spec_get(i)
                &&& self.move_speeds.spec_get(i) == earlier.move_speeds.spec_get(i)
                &&& self.move_targets.spec_get(i) == earlier.move_targets.spec_get(i)
                &&& self.attack_targets.spec_get(i) == earlier.attack_targets.spec_get(i)
                &&& self.ability_slots.spec_get(i) == earlier.ability_slots.spec_get(i)
                &&& self.effect_containers.spec_get(i) == earlier.effect_containers.spec_get(i)
                &&& self.unit_types.spec_get(i) == earlier.unit_types.spec_get(i)
            }
    }

    /// Create a new, empty world.
    pub fn new() -> (w: Self)
        ensures
            w.entities.wf(),
            w.entities.generations() == Seq::<u32>::empty(),
            w.entities.free_list() == Seq::<u32>::empty(),
            w.entities.spec_alive_count() == 0,
            forall|i: u32| #[trigger] w.bare(i),
    {
        let w = Self {
            entities: EntityAllocator::new(),
            positions: ComponentStore::new(),
            velocities: ComponentStore::new(),
            rotations: ComponentStore::new(),
            healths: ComponentStore::new(),
            manas: ComponentStore::new(),
            combat_stats: ComponentStore::new(),
            teams: ComponentStore::new(),
            move_speeds: ComponentStore::new(),
            move_targets: ComponentStore::new(),
            attack_targets: ComponentStore::new(),
            ability_slots: ComponentStore::new(),
            effect_containers: ComponentStore::new(),
            unit_types: ComponentStore::new(),
        };
        w
    }

    /// Allocate a new entity and return its ID.
    pub fn spawn(&mut self) -> (id: EntityId)
        requires
            old(self).entities.spec_alive_count() < u32::MAX,
        ensures
            final(self).entities.wf(),
            !old(self).entities.slot_in_use(id.index as int),
            final(self).entities.slot_in_use(id.index as int),
            final(self).entities.spec_is_alive(id),
            final(self).entities.spec_alive_count() == old(self).entities.spec_alive_count() + 1,
            final(self).entities.descends_from(&old(self).entities),
            forall|i: int|
                final(self).entities.slot_in_use(i) <==> (old(self).entities.slot_in_use(i)
                    || i == id.index),
            final(self).stores_equal(old(self)),
    {
        self.entities.allocate()
    }

    /// Destroy an entity and remove all of its components. Does nothing when the
    /// entity is not alive.
    pub fn despawn(&mut self, id: EntityId)
        requires
            old(self).entities.spec_is_alive(id) ==> id.generation < u32::MAX,
        ensures
            final(self).entities.wf(),
            !final(self).entities.spec_is_alive(id),
            old(self).entities.spec_is_alive(id) ==> {
                &&& final(self).bare(id.index)
                &&& final(self).others_kept(old(self), id.index)
                &&& final(self).entities.spec_alive_count() == old(self).entities.spec_alive_count()
                    - 1
            },
            !old(self).entities.spec_is_alive(id) ==> *final(self) == *old(self),
    {
        if !self.entities.deallocate(id) {
            return;
        }
        self.positions.remove(id);
        self.velocities.remove(id);
        self.rotations.remove(id);
        self.healths.remove(id);
        self.manas.remove(id);
        self.combat_stats.remove(id);
        self.teams.remove(id);
        self.move_speeds.remove(id);
        self.move_targets.remove(id);
        self.attack_targets.remove(id);
        self.ability_slots.remove(id);
        self.effect_containers.remove(id);
        self.unit_types.remove(id);
    }

    /// Check whether the entity is still alive.
    pub fn is_alive(&self, id: EntityId) -> (b: bool)
        ensures
            b == self.entities.spec_is_alive(id),
            b ==> id.index < usize::MAX,
    {
        self.entities.is_alive(id)
    }

    /// Number of currently alive entities.
    pub fn alive_count(&self) -> (n: u32)
        ensures
            n == self.entities.spec_alive_count(),
    {
        self.entities.alive_count()
    }
}

} // verus!
