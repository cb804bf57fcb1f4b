use tyrnak_engine::command::{
    moba_allows_command, AbilityId, Command, CommandBuffer, EventLog, ItemId, Target,
};
use tyrnak_engine::component::ComponentStore;
use tyrnak_engine::effects::{
    apply_effect_to_store, EffectCategory, EffectContainer, EffectInstance, EffectKind,
    EffectPayload, StackPolicy,
};
use tyrnak_engine::entity::EntityId;
use tyrnak_engine::rules::DamageKind;

fn make_effect(
    id: u32,
    kind: EffectKind,
    policy: StackPolicy,
    payload: EffectPayload<f32>,
) -> EffectInstance<f32> {
    EffectInstance {
        id,
        kind,
        category: EffectCategory::Debuff,
        remaining_duration: 1.0,
        total_duration: 1.0,
        stacks: 1,
        max_stacks: 1,
        stack_policy: policy,
        source: None,
        payload,
    }
}

#[test]
fn apply_effect_creates_container_and_emits_event() {
    let mut store: ComponentStore<EffectContainer<f32>> = ComponentStore::new();
    let entity = EntityId::new(0, 0);
    let (applied, stack_added) = apply_effect_to_store(
        &mut store,
        entity,
        EffectInstance {
            id: 7,
            kind: EffectKind::PeriodicHeal,
            category: EffectCategory::Buff,
            remaining_duration: 2.0,
            total_duration: 2.0,
            stacks: 1,
            max_stacks: 3,
            stack_policy: StackPolicy::IndependentInstance,
            source: None,
            payload: EffectPayload::PeriodicHeal { amount_per_tick: 1.0 },
        },
    );
    assert_eq!(store.get(entity).unwrap().effects.len(), 1);
    // The applied-event carries the id of the effect as it now stands.
    assert_eq!(applied.id, 7);
    assert!(!stack_added);
}

#[test]
fn refresh_policy_resets_durations_of_first_match() {
    let mut container = EffectContainer {
        effects: vec![
            EffectInstance {
                remaining_duration: 0.25,
                total_duration: 1.0,
                ..make_effect(1, EffectKind::Slow, StackPolicy::RefreshDuration, EffectPayload::Slow { multiplier: 0.5 })
            },
            make_effect(2, EffectKind::Slow, StackPolicy::RefreshDuration, EffectPayload::Slow { multiplier: 0.5 }),
        ],
    };
    let incoming = EffectInstance {
        total_duration: 4.0,
        remaining_duration: 4.0,
        ..make_effect(9, EffectKind::Slow, StackPolicy::RefreshDuration, EffectPayload::Slow { multiplier: 0.2 })
    };
    let (applied, stack_added) = container.apply(incoming);
    assert!(!stack_added);
    assert_eq!(applied.id, 1);
    assert_eq!(container.effects.len(), 2);
    assert_eq!(container.effects[0].remaining_duration, 4.0);
    assert_eq!(container.effects[0].total_duration, 4.0);
    assert_eq!(container.effects[1].remaining_duration, 1.0);
}

#[test]
fn add_stack_policy_caps_at_max_stacks() {
    let mut container = EffectContainer {
        effects: vec![EffectInstance {
            stacks: 2,
            max_stacks: 3,
            remaining_duration: 0.5,
            ..make_effect(
                1,
                EffectKind::PeriodicDamage,
                StackPolicy::AddStackRefreshDuration,
                EffectPayload::PeriodicDamage { amount_per_tick: 3.0, kind: DamageKind::Magical },
            )
        }],
    };
    let incoming = EffectInstance {
        stacks: 2,
        total_duration: 6.0,
        ..make_effect(
            5,
            EffectKind::PeriodicDamage,
            StackPolicy::AddStackRefreshDuration,
            EffectPayload::PeriodicDamage { amount_per_tick: 3.0, kind: DamageKind::Magical },
        )
    };
    let (applied, stack_added) = container.apply(incoming);
    assert!(stack_added);
    assert_eq!(applied.stacks, 3);
    assert_eq!(applied.id, 1);
    assert_eq!(container.effects[0].stacks, 3);
    assert_eq!(container.effects[0].remaining_duration, 6.0);
    // The total duration of the existing instance is left as it was.
    assert_eq!(container.effects[0].total_duration, 1.0);
}

#[test]
fn add_stack_policy_without_match_pushes_new_instance() {
    let mut container = EffectContainer { effects: Vec::new() };
    let incoming =
        make_effect(4, EffectKind::Stun, StackPolicy::AddStackRefreshDuration, EffectPayload::Stun);
    let (applied, stack_added) = container.apply(incoming);
    assert!(!stack_added);
    assert_eq!(applied.id, 4);
    assert_eq!(container.effects.len(), 1);
    assert!(container.has_effect_kind(EffectKind::Stun));
    assert!(!container.has_effect_kind(EffectKind::Custom(3)));
}

#[test]
fn independent_instances_accumulate() {
    let mut container = EffectContainer { effects: Vec::new() };
    for id in 0..3 {
        container.apply(make_effect(
            id,
            EffectKind::Custom(1),
            StackPolicy::IndependentInstance,
            EffectPayload::Custom(1),
        ));
    }
    assert_eq!(container.effects.len(), 3);
    assert_eq!(container.find_kind(EffectKind::Custom(1)), Some(0));
    assert_eq!(container.find_kind(EffectKind::Custom(2)), None);
}

fn store_with(entity: EntityId, effects: Vec<EffectInstance<f32>>) -> ComponentStore<EffectContainer<f32>> {
    let mut store = ComponentStore::new();
    store.insert(entity, EffectContainer { effects });
    store
}

#[test]
fn silence_blocks_cast_ability() {
    let entity = EntityId::new(0, 0);
    let store = store_with(
        entity,
        vec![make_effect(1, EffectKind::Silence, StackPolicy::IndependentInstance, EffectPayload::Silence)],
    );
    let allowed = moba_allows_command(
        &store,
        &Command::<[f32; 3]>::CastAbility {
            entity,
            ability: AbilityId(1),
            target: Target::NoTarget,
        },
    );
    assert!(!allowed);
    // Silence leaves other commands alone.
    assert!(moba_allows_command(&store, &Command::<[f32; 3]>::Stop { entity }));
}

#[test]
fn stun_blocks_attack_command() {
    let entity = EntityId::new(0, 0);
    let target = EntityId::new(1, 0);
    let store = store_with(
        entity,
        vec![make_effect(1, EffectKind::Stun, StackPolicy::IndependentInstance, EffectPayload::Stun)],
    );
    let allowed = moba_allows_command(
        &store,
        &Command::<[f32; 3]>::AttackTarget { entity, target },
    );
    assert!(!allowed);
    // The target itself is not stunned.
    assert!(moba_allows_command(
        &store,
        &Command::<[f32; 3]>::BuyItem { entity: target, item: ItemId(2) }
    ));
}

#[test]
fn buffer_push_and_drain() {
    let mut buf = CommandBuffer::new();
    buf.push(Command::Stop {
        entity: EntityId::new(0, 0),
    });
    buf.push(Command::MoveTo {
        entity: EntityId::new(1, 0),
        position: glam::Vec3::ONE,
    });
    assert_eq!(buf.len(), 2);
    assert!(!buf.is_empty());

    let cmds = buf.drain();
    assert_eq!(cmds.len(), 2);
    assert!(buf.is_empty());
    assert_eq!(buf.len(), 0);
    assert_eq!(cmds[0].entity(), EntityId::new(0, 0));
    assert_eq!(cmds[1].entity(), EntityId::new(1, 0));
}

#[test]
fn buffer_drain_empty() {
    let mut buf = CommandBuffer::<glam::Vec3>::new();
    let cmds = buf.drain();
    assert!(cmds.is_empty());
}

#[derive(Debug, Clone, PartialEq)]
enum Event {
    Spawned(u32),
}

#[test]
fn log_push_and_events() {
    let mut log = EventLog::new();
    log.push(Event::Spawned(0));
    assert_eq!(log.len(), 1);
    assert!(!log.is_empty());
    assert_eq!(log.events().len(), 1);
}

#[test]
fn log_drain() {
    let mut log = EventLog::new();
    log.push(Event::Spawned(0));
    let events = log.drain();
    assert_eq!(events.len(), 1);
    assert!(log.is_empty());
}

#[test]
fn log_clear() {
    let mut log = EventLog::new();
    log.push(Event::Spawned(0));
    log.push(Event::Spawned(1));
    log.clear();
    assert!(log.is_empty());
    assert_eq!(log.len(), 0);
}

#[test]
fn log_empty_by_default() {
    let log = EventLog::<Event>::new();
    assert!(log.is_empty());
    assert_eq!(log.len(), 0);
    assert!(log.events().is_empty());
}

#[test]
fn log_keeps_insertion_order() {
    let mut log = EventLog::new();
    log.push(Event::Spawned(3));
    log.push(Event::Spawned(1));
    assert_eq!(log.events(), &[Event::Spawned(3), Event::Spawned(1)]);
}
