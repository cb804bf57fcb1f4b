//! Player commands, the command buffer, the event log, and the MOBA command
//! admission rule.
//!
//! Positions are carried as an opaque type `P` (the simulation uses a 3D
//! vector); nothing here reads them.
use vstd::prelude::*;

use crate::component::ComponentStore;
use crate::effects::{has_kind, EffectContainer, EffectKind};
use crate::entity::EntityId;

verus! {

/// Identifier of an ability definition.
#[derive(Debug, Clone, Copy, PartialEq, Eq, Hash, Structural)]
pub struct AbilityId(pub u32);

/// Identifier of an item definition.
#[derive(Debug, Clone, Copy, PartialEq, Eq, Hash, Structural)]
pub struct ItemId(pub u32);

/// What an ability is aimed at.
#[derive(Debug, Clone, Copy, PartialEq)]
pub enum Target<P> {
    NoTarget,
    Entity(EntityId),
    Position(P),
}

/// A player-issued command.
#[derive(Debug, Clone, Copy, PartialEq)]
pub enum Command<P> {
    MoveTo { entity: EntityId, position: P },
    Stop { entity: EntityId },
    AttackTarget { entity: EntityId, target: EntityId },
    CastAbility { entity: EntityId, ability: AbilityId, target: Target<P> },
    BuyItem { entity: EntityId, item: ItemId },
}

impl<P> Command<P> {
    /// The entity that the command is issued for.
    pub open spec fn spec_entity(&self) -> EntityId {
        match self {
            Command::MoveTo { entity, .. } => *entity,
            Command::Stop { entity } => *entity,
            Command::AttackTarget { entity, .. } => *entity,
            Command::CastAbility { entity, .. } => *entity,
            Command::BuyItem { entity, .. } => *entity,
        }
    }

    /// The entity that the command is issued for.
    pub fn entity(&self) -> (e: EntityId)
        ensures
            e == self.spec_entity(),
    {
        match self {
            Command::MoveTo { entity, .. } => *entity,
            Command::Stop { entity } => *entity,
            Command::AttackTarget { entity, .. } => *entity,
            Command::CastAbility { entity, .. } => *entity,
            Command::BuyItem { entity, .. } => *entity,
        }
    }
}

/// Collects commands until the tick pipeline is ready to process them.
pub struct CommandBuffer<P> {
    commands: Vec<Command<P>>,
}

impl<P> CommandBuffer<P> {
    /// The queued commands, oldest first.
    pub closed spec fn queued(&self) -> Seq<Command<P>> {
        self.commands@
    }

    /// Create an empty buffer.
    pub fn new() -> (b: Self)
        ensures
            b.queued() == Seq::<Command<P>>::empty(),
    {
        Self { commands: Vec::new() }
    }

    /// Enqueue a single command.
    pub fn push(&mut self, cmd: Command<P>)
        ensures
            final(self).queued() == old(self).queued().push(cmd),
    {
        self.commands.push(cmd);
    }

    /// Drain all queued commands, returning them in insertion order.
    pub fn drain(&mut self) -> (cmds: Vec<Command<P>>)
        ensures
            cmds@ == old(self).queued(),
            final(self).queued() == Seq::<Command<P>>::empty(),
    {
        let mut taken = Vec::new();
        std::mem::swap(&mut taken, &mut self.commands);
        taken
    }

    /// Number of queued commands.
    pub fn len(&self) -> (n: usize)
        ensures
            n == self.queued().len(),
    {
        self.commands.len()
    }

    /// Whether the buffer is empty.
    pub fn is_empty(&self) -> (b: bool)
        ensures
            b == (self.queued().len() == 0),
    {
        self.commands.len() == 0
    }
}

/// Accumulates the events produced during a single tick.
pub struct EventLog<E> {
    events: Vec<E>,
}

impl<E> EventLog<E> {
    /// The recorded events, oldest first.
    pub closed spec fn recorded(&self) -> Seq<E> {
        self.events@
    }

    /// Create an empty log.
    pub fn new() -> (l: Self)
        ensures
            l.recorded() == Seq::<E>::empty(),
    {
        Self { events: Vec::new() }
    }

    /// Record an event.
    pub fn push(&mut self, event: E)
        ensures
            final(self).recorded() == old(self).recorded().push(event),
    {
        self.events.push(event);
    }

    /// Drain all events, returning them and leaving the log empty.
    pub fn drain(&mut self) -> (events: Vec<E>)
        ensures
            events@ == old(self).recorded(),
            final(self).recorded() == Seq::<E>::empty(),
    {
        let mut taken = Vec::new();
        std::mem::swap(&mut taken, &mut self.events);
        taken
    }

    /// Borrow the current events without consuming them.
    pub fn events(&self) -> (s: &[E])
        ensures
            s@ == self.recorded(),
    {
        self.events.as_slice()
    }

    /// Number of events in the log.
    pub fn len(&self) -> (n: usize)
        ensures
            n == self.recorded().len(),
    {
        self.events.len()
    }

    /// Whether the log is empty.
    pub fn is_empty(&self) -> (b: bool)
        ensures
            b == (self.recorded().len() == 0),
    {
        self.events.len() == 0
    }

    /// Discard all events.
    pub fn clear(&mut self)
        ensures
            final(self).recorded() == Seq::<E>::empty(),
    {
        self.events.clear();
    }
}

/// The entity carries an active effect of the given kind.
pub open spec fn entity_has_effect<A>(
    effects: ComponentStore<EffectContainer<A>>,
    entity: EntityId,
    kind: EffectKind,
) -> bool {
    effects.spec_get(entity.index) matches Some(c) && has_kind(c.effects@, kind)
}

/// The MOBA admission policy: a stunned entity may issue no command, and a
/// silenced one may not cast abilities.
pub open spec fn moba_admits<A, P>(
    effects: ComponentStore<EffectContainer<A>>,
    command: Command<P>,
) -> bool {
    &&& !entity_has_effect(effects, command.spec_entity(), EffectKind::Stun)
    &&& !(command is CastAbility && entity_has_effect(
        effects,
        command.spec_entity(),
        EffectKind::Silence,
    ))
}

/// Whether `entity` carries an active effect of the given kind.
pub fn has_effect_kind<A: Copy>(
    effects: &ComponentStore<EffectContainer<A>>,
    entity: EntityId,
    kind: EffectKind,
) -> (b: bool)
    ensures
        b == entity_has_effect(*effects, entity, kind),
{
    match effects.get(entity) {
        Some(container) => container.has_effect_kind(kind),
        None => false,
    }
}

/// Decide whether the MOBA command rule admits `command`, given every entity's
/// active effects.
pub fn moba_allows_command<A: Copy, P>(
    effects: &ComponentStore<EffectContainer<A>>,
    command: &Command<P>,
) -> (b: bool)
    ensures
        b == moba_admits(*effects, *command),
{
    let entity = command.entity();
    if has_effect_kind(effects, entity, EffectKind::Stun) {
        return false;
    }
    let is_cast = match command {
        Command::CastAbility { .. } => true,
        _ => false,
    };
    if is_cast && has_effect_kind(effects, entity, EffectKind::Silence) {
        return false;
    }
    true
}


/// The entity a command is issued for is the one it names first: the mover, the
/// stopped unit, the attacker, the caster or the buyer.
pub proof fn command_entity_law<P>(command: Command<P>)
    ensures
        command matches Command::MoveTo { entity, .. } ==> command.spec_entity() == entity,
        command matches Command::Stop { entity } ==> command.spec_entity() == entity,
        command matches Command::AttackTarget { entity, .. } ==> command.spec_entity() == entity,
        command matches Command::CastAbility { entity, .. } ==> command.spec_entity() == entity,
        command matches Command::BuyItem { entity, .. } ==> command.spec_entity() == entity,
{
}

/// The MOBA admission rule: an entity carrying a Stun effect may issue no command of
/// any kind; one carrying a Silence effect may not cast abilities; every other
/// command is admitted.
pub proof fn moba_admission_law<A, P>(
    effects: ComponentStore<EffectContainer<A>>,
    command: Command<P>,
    admitted: bool,
)
    requires
        admitted == moba_admits(effects, command),
    ensures
        (exists|c: EffectContainer<A>, i: int|
            effects.spec_get(command.spec_entity().index) == Some(c) && 0 <= i < c.effects@.len()
                && (#[trigger] c.effects@[i]).kind == EffectKind::Stun) ==> !admitted,
        (command is CastAbility && exists|c: EffectContainer<A>, i: int|
            effects.spec_get(command.spec_entity().index) == Some(c) && 0 <= i < c.effects@.len()
                && (#[trigger] c.effects@[i]).kind == EffectKind::Silence) ==> !admitted,
        (forall|c: EffectContainer<A>, i: int|
            effects.spec_get(command.spec_entity().index) == Some(c) && 0 <= i < c.effects@.len()
                ==> (#[trigger] c.effects@[i]).kind != EffectKind::Stun && (command is CastAbility
                ==> c.effects@[i].kind != EffectKind::Silence)) ==> admitted,
{
    let e = command.spec_entity();
    if exists|c: EffectContainer<A>, i: int|
        effects.spec_get(e.index) == Some(c) && 0 <= i < c.effects@.len()
            && (#[trigger] c.effects@[i]).kind == EffectKind::Stun {
        let (c, i) = choose|c: EffectContainer<A>, i: int|
            effects.spec_get(e.index) == Some(c) && 0 <= i < c.effects@.len()
                && (#[trigger] c.effects@[i]).kind == EffectKind::Stun;
        assert(has_kind(c.effects@, EffectKind::Stun));
    }
    if command is CastAbility && exists|c: EffectContainer<A>, i: int|
        effects.spec_get(e.index) == Some(c) && 0 <= i < c.effects@.len()
            && (#[trigger] c.effects@[i]).kind == EffectKind::Silence {
        let (c, i) = choose|c: EffectContainer<A>, i: int|
            effects.spec_get(e.index) == Some(c) && 0 <= i < c.effects@.len()
                && (#[trigger] c.effects@[i]).kind == EffectKind::Silence;
        assert(has_kind(c.effects@, EffectKind::Silence));
    }
    if forall|c: EffectContainer<A>, i: int|
        effects.spec_get(e.index) == Some(c) && 0 <= i < c.effects@.len()
            ==> (#[trigger] c.effects@[i]).kind != EffectKind::Stun && (command is CastAbility
            ==> c.effects@[i].kind != EffectKind::Silence) {
        if effects.spec_get(e.index) is Some {
            let c = effects.spec_get(e.index)->Some_0;
            assert(!has_kind(c.effects@, EffectKind::Stun)) by {
                if has_kind(c.effects@, EffectKind::Stun) {
                    let i = choose|i: int| 0 <= i < c.effects@.len() && c.effects@[i].kind
                        == EffectKind::Stun;
                    assert(c.effects@[i].kind != EffectKind::Stun);
                }
            }
            if command is CastAbility {
                assert(!has_kind(c.effects@, EffectKind::Silence)) by {
                    if has_kind(c.effects@, EffectKind::Silence) {
                        let i = choose|i: int| 0 <= i < c.effects@.len() && c.effects@[i].kind
                            == EffectKind::Silence;
                        assert(c.effects@[i].kind != EffectKind::Silence);
                    }
                }
            }
        }
    }
}

} // verus!
