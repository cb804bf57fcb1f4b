//! The command step of a tick: which queued commands take effect, what they do
//! to the move and attack targets, and which requests they queue.
//!
//! A command first passes the command rule (whether the rule admitted it is
//! handed in as `allowed`), then the liveness of the entities it names. Velocity
//! changes are floating-point work and stay with the caller.
use vstd::prelude::*;

use crate::command::{AbilityId, Command, ItemId, Target};
use crate::component::{AttackTarget, ComponentStore, MoveTarget};
use crate::entity::{EntityAllocator, EntityId};
use crate::world::{ComponentTypes, World};

verus! {

/// What processing one command does.
#[derive(Debug, Clone, Copy, PartialEq)]
pub enum CommandPlan<P> {
    /// The command is dropped: refused by the rule, or an entity it names is dead.
    Skip,
    /// Walk towards `position`, dropping any attack target.
    MoveTo { entity: EntityId, position: P },
    /// Halt: drop both the move target and the attack target.
    Stop { entity: EntityId },
    /// Attack `target`, dropping any move target.
    Attack { entity: EntityId, target: EntityId },
    /// Queue an ability cast request.
    QueueCast { entity: EntityId, ability: AbilityId, target: Target<P> },
    /// Queue an item purchase request.
    QueueBuy { entity: EntityId, item: ItemId },
}

/// The plan for `cmd`: nothing when the rule refused it or when the acting entity
/// (or, for an attack, the target) is not alive; otherwise the command's action.
pub open spec fn command_plan<P>(
    entities: EntityAllocator,
    cmd: Command<P>,
    allowed: bool,
) -> CommandPlan<P> {
    if !allowed {
        CommandPlan::Skip
    } else {
        match cmd {
            Command::MoveTo { entity, position } => if entities.spec_is_alive(entity) {
                CommandPlan::MoveTo { entity, position }
            } else {
                CommandPlan::Skip
            },
            Command::Stop { entity } => if entities.spec_is_alive(entity) {
                CommandPlan::Stop { entity }
            } else {
                CommandPlan::Skip
            },
            Command::AttackTarget { entity, target } => if entities.spec_is_alive(entity)
                && entities.spec_is_alive(target) {
                CommandPlan::Attack { entity, target }
            } else {
                CommandPlan::Skip
            },
            Command::CastAbility { entity, ability, target } => if entities.spec_is_alive(
                entity,
            ) {
                CommandPlan::QueueCast { entity, ability, target }
            } else {
                CommandPlan::Skip
            },
            Command::BuyItem { entity, item } => if entities.spec_is_alive(entity) {
                CommandPlan::QueueBuy { entity, item }
            } else {
                CommandPlan::Skip
            },
        }
    }
}

/// The entity a plan acts for, if it does anything.
pub open spec fn plan_entity<P>(plan: CommandPlan<P>) -> Option<EntityId> {
    match plan {
        CommandPlan::Skip => None,
        CommandPlan::MoveTo { entity, .. } => Some(entity),
        CommandPlan::Stop { entity } => Some(entity),
        CommandPlan::Attack { entity, .. } => Some(entity),
        CommandPlan::QueueCast { entity, .. } => Some(entity),
        CommandPlan::QueueBuy { entity, .. } => Some(entity),
    }
}

/// The acting entity's index fits a component store's slot array.
pub open spec fn plan_fits<P>(plan: CommandPlan<P>) -> bool {
    plan_entity(plan) matches Some(e) ==> e.index < usize::MAX
}

/// The move target a plan gives its entity, if it sets one.
pub open spec fn planned_move_target<P>(plan: CommandPlan<P>) -> Option<(u32, MoveTarget<P>)> {
    match plan {
        CommandPlan::MoveTo { entity, position } => Some((entity.index, MoveTarget(Some(position)))),
        CommandPlan::Stop { entity } => Some((entity.index, MoveTarget(None))),
        CommandPlan::Attack { entity, .. } => Some((entity.index, MoveTarget(None))),
        _ => None,
    }
}

/// The attack target a plan gives its entity, if it sets one.
pub open spec fn planned_attack_target<P>(plan: CommandPlan<P>) -> Option<(u32, AttackTarget)> {
    match plan {
        CommandPlan::MoveTo { entity, .. } => Some((entity.index, AttackTarget(None))),
        CommandPlan::Stop { entity } => Some((entity.index, AttackTarget(None))),
        CommandPlan::Attack { entity, target } => Some((entity.index, AttackTarget(Some(target)))),
        _ => None,
    }
}

/// A store's contents after an optional overwrite of one entry.
pub open spec fn overwritten<T>(contents: Map<u32, T>, change: Option<(u32, T)>) -> Map<u32, T> {
    match change {
        Some((i, v)) => contents.insert(i, v),
        None => contents,
    }
}

/// Decide what `cmd` does, given whether the command rule admitted it.
pub fn plan_command<C: ComponentTypes>(
    world: &World<C>,
    cmd: Command<C::Point>,
    allowed: bool,
) -> (p: CommandPlan<C::Point>)
    ensures
        p == command_plan(world.entities, cmd, allowed),
        plan_fits(p),
{
    if !allowed {
        return CommandPlan::Skip;
    }
    match cmd {
        Command::MoveTo { entity, position } => if world.is_alive(entity) {
            CommandPlan::MoveTo { entity, position }
        } else {
            CommandPlan::Skip
        },
        Command::Stop { entity } => if world.is_alive(entity) {
            CommandPlan::Stop { entity }
        } else {
            CommandPlan::Skip
        },
        Command::AttackTarget { entity, target } => if world.is_alive(entity) && world.is_alive(
            target,
        ) {
            CommandPlan::Attack { entity, target }
        } else {
            CommandPlan::Skip
        },
        Command::CastAbility { entity, ability, target } => if world.is_alive(entity) {
            CommandPlan::QueueCast { entity, ability, target }
        } else {
            CommandPlan::Skip
        },
        Command::BuyItem { entity, item } => if world.is_alive(entity) {
            CommandPlan::QueueBuy { entity, item }
        } else {
            CommandPlan::Skip
        },
    }
}

/// Carry out a plan's target changes: the move and attack targets of its entity
/// are overwritten as the plan says, and nothing else in the world changes.
pub fn apply_command_plan<C: ComponentTypes>(world: &mut World<C>, plan: CommandPlan<C::Point>)
    requires
        plan_fits(plan),
    ensures
        final(world).move_targets.contents() == overwritten(
            old(world).move_targets.contents(),
            planned_move_target(plan),
        ),
        final(world).attack_targets.contents() == overwritten(
            old(world).attack_targets.contents(),
            planned_attack_target(plan),
        ),
        final(world).entities == old(world).entities,
        final(world).positions == old(world).positions,
        final(world).velocities == old(world).velocities,
        final(world).rotations == old(world).rotations,
        final(world).healths == old(world).healths,
        final(world).manas == old(world).manas,
        final(world).combat_stats == old(world).combat_stats,
        final(world).teams == old(world).teams,
        final(world).move_speeds == old(world).move_speeds,
        final(world).ability_slots == old(world).ability_slots,
        final(world).effect_containers == old(world).effect_containers,
        final(world).unit_types == old(world).unit_types,
{
    match plan {
        CommandPlan::MoveTo { entity, position } => {
            world.move_targets.insert(entity, MoveTarget(Some(position)));
            world.attack_targets.insert(entity, AttackTarget(None));
        },
        CommandPlan::Stop { entity } => {
            world.move_targets.insert(entity, MoveTarget(None));
            world.attack_targets.insert(entity, AttackTarget(None));
        },
        CommandPlan::Attack { entity, target } => {
            world.attack_targets.insert(entity, AttackTarget(Some(target)));
            world.move_targets.insert(entity, MoveTarget(None));
        },
        _ => {},
    }
}

/// A refused command, or one naming a dead entity, does nothing: its plan sets no
/// target and queues no request.
pub proof fn refused_or_dead_commands_do_nothing<P>(
    entities: EntityAllocator,
    cmd: Command<P>,
    allowed: bool,
)
    requires
        !allowed || !entities.spec_is_alive(cmd.spec_entity()),
    ensures
        command_plan(entities, cmd, allowed) == CommandPlan::<P>::Skip,
        planned_move_target(command_plan(entities, cmd, allowed)) is None,
        planned_attack_target(command_plan(entities, cmd, allowed)) is None,
{
}

/// Overwriting one entry of a store's contents: the named entity's entry becomes the
/// new value, and every other entity's entry stays.
proof fn lemma_overwritten_get<T>(
    before: ComponentStore<T>,
    after: ComponentStore<T>,
    change: Option<(u32, T)>,
)
    requires
        after.contents() == overwritten(before.contents(), change),
    ensures
        change matches Some((j, v)) ==> after.spec_get(j) == Some(v),
        forall|i: u32|
            (change matches Some((j, v)) ==> i != j) ==> #[trigger] after.spec_get(i)
                == before.spec_get(i),
{
    match change {
        Some((j, v)) => {
            assert(after.contents().dom().contains(j));
            assert(after.contents()[j] == v);
        },
        None => {},
    }
    assert forall|i: u32|
        (change matches Some((j, v)) ==> i != j) implies #[trigger] after.spec_get(i)
            == before.spec_get(i) by {
        if before.spec_get(i) is Some {
            assert(before.contents().dom().contains(i));
            assert(after.contents().dom().contains(i));
            assert(after.contents()[i] == before.contents()[i]);
        } else {
            assert(!before.contents().dom().contains(i));
            assert(!after.contents().dom().contains(i));
        }
    }
}

/// What carrying out a plan does to the targets: a move sets the mover's move target
/// to the destination and drops its attack target; a stop drops both of the unit's
/// targets, whatever they were; an attack sets the attacker's attack target and
/// drops its move target; a skipped or queued command touches no target. No other
/// entity's targets change.
pub proof fn carried_out_plan_law<P>(
    move_before: ComponentStore<MoveTarget<P>>,
    move_after: ComponentStore<MoveTarget<P>>,
    attack_before: ComponentStore<AttackTarget>,
    attack_after: ComponentStore<AttackTarget>,
    plan: CommandPlan<P>,
)
    requires
        move_after.contents() == overwritten(move_before.contents(), planned_move_target(plan)),
        attack_after.contents() == overwritten(
            attack_before.contents(),
            planned_attack_target(plan),
        ),
    ensures
        plan matches CommandPlan::MoveTo { entity, position } ==> move_after.spec_get(entity.index)
            == Some(MoveTarget(Some(position))) && attack_after.spec_get(entity.index) == Some(
            AttackTarget(None),
        ),
        plan matches CommandPlan::Stop { entity } ==> move_after.spec_get(entity.index) == Some(
            MoveTarget::<P>(None),
        ) && attack_after.spec_get(entity.index) == Some(AttackTarget(None)),
        plan matches CommandPlan::Attack { entity, target } ==> attack_after.spec_get(entity.index)
            == Some(AttackTarget(Some(target))) && move_after.spec_get(entity.index) == Some(
            MoveTarget::<P>(None),
        ),
        (plan is Skip || plan is QueueCast || plan is QueueBuy) ==> forall|i: u32|
            #[trigger] move_after.spec_get(i) == move_before.spec_get(i) && attack_after.spec_get(i)
                == attack_before.spec_get(i),
        forall|i: u32|
            (plan_entity(plan) matches Some(e) ==> i != e.index) ==> #[trigger] move_after.spec_get(
                i,
            ) == move_before.spec_get(i) && attack_after.spec_get(i) == attack_before.spec_get(i),
{
    lemma_overwritten_get(move_before, move_after, planned_move_target(plan));
    lemma_overwritten_get(attack_before, attack_after, planned_attack_target(plan));
}

/// What each command plans: nothing when the rule refused it; otherwise, when the
/// acting entity is alive (and, for an attack, the target too), a move to the same
/// position, a stop, an attack on the same target, or a queued cast or purchase with
/// the command's own ability, target or item; nothing when one of them is dead.
pub proof fn command_plan_law<P>(entities: EntityAllocator, cmd: Command<P>, allowed: bool)
    ensures
        !allowed ==> command_plan(entities, cmd, allowed) == CommandPlan::<P>::Skip,
        allowed ==> (cmd matches Command::MoveTo { entity, position } ==> command_plan(
            entities,
            cmd,
            allowed,
        ) == if entities.spec_is_alive(entity) {
            CommandPlan::MoveTo { entity, position }
        } else {
            CommandPlan::<P>::Skip
        }),
        allowed ==> (cmd matches Command::Stop { entity } ==> command_plan(entities, cmd, allowed)
            == if entities.spec_is_alive(entity) {
            CommandPlan::Stop { entity }
        } else {
            CommandPlan::<P>::Skip
        }),
        allowed ==> (cmd matches Command::AttackTarget { entity, target } ==> command_plan(
            entities,
            cmd,
            allowed,
        ) == if entities.spec_is_alive(entity) && entities.spec_is_alive(target) {
            CommandPlan::Attack { entity, target }
        } else {
            CommandPlan::<P>::Skip
        }),
        allowed ==> (cmd matches Command::CastAbility { entity, ability, target } ==> command_plan(
            entities,
            cmd,
            allowed,
        ) == if entities.spec_is_alive(entity) {
            CommandPlan::QueueCast { entity, ability, target }
        } else {
            CommandPlan::<P>::Skip
        }),
        allowed ==> (cmd matches Command::BuyItem { entity, item } ==> command_plan(
            entities,
            cmd,
            allowed,
        ) == if entities.spec_is_alive(entity) {
            CommandPlan::QueueBuy { entity, item }
        } else {
            CommandPlan::<P>::Skip
        }),
{
}

} // verus!
