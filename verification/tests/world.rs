use glam::Vec3;
use tyrnak_engine::command::{AbilityId, Command, ItemId, Target};
use tyrnak_engine::command_plan::{apply_command_plan, plan_command, CommandPlan};
use tyrnak_engine::component::{AttackTarget, MoveTarget, Team};
use tyrnak_engine::entity::EntityId;
use tyrnak_engine::world::{ComponentTypes, World};

#[derive(Debug, Clone)]
struct Position(Vec3);
#[derive(Debug, Clone)]
struct Velocity(Vec3);
#[derive(Debug, Clone)]
struct Rotation(f32);
#[derive(Debug, Clone)]
struct Health {
    current: f32,
    max: f32,
}
#[derive(Debug, Clone)]
struct Mana {
    current: f32,
    max: f32,
}
#[derive(Debug, Clone)]
struct CombatStats {
    attack_damage: f32,
}
#[derive(Debug, Clone)]
struct MoveSpeed(f32);
#[derive(Debug, Clone)]
struct AbilitySlots(Vec<u32>);
#[derive(Debug, Clone)]
struct UnitType(u8);

struct Sim;

impl ComponentTypes for Sim {
    type Position = Position;
    type Velocity = Velocity;
    type Rotation = Rotation;
    type Health = Health;
    type Mana = Mana;
    type CombatStats = CombatStats;
    type MoveSpeed = MoveSpeed;
    type Point = Vec3;
    type AbilitySlots = AbilitySlots;
    type UnitType = UnitType;
    type Scalar = f32;
}

#[test]
fn world_spawn_and_alive() {
    let mut world = World::<Sim>::new();
    let a = world.spawn();
    let b = world.spawn();
    assert!(world.is_alive(a));
    assert!(world.is_alive(b));
    assert_eq!(world.alive_count(), 2);
}

#[test]
fn world_despawn() {
    let mut world = World::<Sim>::new();
    let a = world.spawn();
    world.positions.insert(a, Position(Vec3::ONE));
    world.healths.insert(
        a,
        Health {
            current: 100.0,
            max: 100.0,
        },
    );

    world.despawn(a);
    assert!(!world.is_alive(a));
    assert_eq!(world.alive_count(), 0);
    assert!(!world.positions.has(a));
    assert!(!world.healths.has(a));
}

#[test]
fn world_despawn_invalid_is_noop() {
    let mut world = World::<Sim>::new();
    world.despawn(EntityId::invalid()); // should not panic
    assert_eq!(world.alive_count(), 0);
}

#[test]
fn world_add_components_and_read() {
    let mut world = World::<Sim>::new();
    let e = world.spawn();
    world
        .positions
        .insert(e, Position(Vec3::new(1.0, 2.0, 3.0)));
    world.teams.insert(e, Team(1));

    assert_eq!(world.positions.get(e).unwrap().0, Vec3::new(1.0, 2.0, 3.0));
    assert_eq!(world.teams.get(e).unwrap().0, 1);
}

#[test]
fn world_despawn_keeps_other_entities() {
    let mut world = World::<Sim>::new();
    let a = world.spawn();
    let b = world.spawn();
    world.teams.insert(a, Team(1));
    world.teams.insert(b, Team(2));
    world.attack_targets.insert(b, AttackTarget(Some(a)));
    world.manas.insert(b, Mana { current: 5.0, max: 10.0 });
    world.despawn(a);
    assert!(!world.teams.has(a));
    assert_eq!(world.teams.get(b).unwrap().0, 2);
    assert_eq!(world.attack_targets.get(b).copied(), Some(AttackTarget(Some(a))));
    assert_eq!(world.manas.get(b).unwrap().max, 10.0);
    assert!(world.is_alive(b));
    // A second despawn of the same handle changes nothing.
    world.despawn(a);
    assert_eq!(world.alive_count(), 1);
}

#[test]
fn world_despawn_of_freed_slot_next_generation_is_noop() {
    let mut world = World::<Sim>::new();
    let a = world.spawn();
    world.despawn(a);
    let next = EntityId::new(a.index, a.generation + 1);
    assert!(!world.is_alive(next));
    world.despawn(next);
    assert_eq!(world.alive_count(), 0);
    let b = world.spawn();
    assert_eq!(b, next);
    assert!(world.is_alive(b));
}

#[test]
fn command_plans_follow_rule_and_liveness() {
    let mut world = World::<Sim>::new();
    let a = world.spawn();
    let b = world.spawn();
    let dead = world.spawn();
    world.despawn(dead);
    let p = Vec3::new(1.0, 0.0, 2.0);

    let mv = Command::MoveTo { entity: a, position: p };
    assert_eq!(plan_command(&world, mv, true), CommandPlan::MoveTo { entity: a, position: p });
    assert_eq!(plan_command(&world, mv, false), CommandPlan::Skip);
    assert_eq!(
        plan_command(&world, Command::MoveTo { entity: dead, position: p }, true),
        CommandPlan::Skip
    );
    assert_eq!(plan_command(&world, Command::Stop { entity: b }, true), CommandPlan::Stop { entity: b });
    assert_eq!(
        plan_command(&world, Command::AttackTarget { entity: a, target: b }, true),
        CommandPlan::Attack { entity: a, target: b }
    );
    assert_eq!(
        plan_command(&world, Command::AttackTarget { entity: a, target: dead }, true),
        CommandPlan::Skip
    );
    let cast = Command::CastAbility { entity: b, ability: AbilityId(7), target: Target::Entity(a) };
    assert_eq!(
        plan_command(&world, cast, true),
        CommandPlan::QueueCast { entity: b, ability: AbilityId(7), target: Target::Entity(a) }
    );
    assert_eq!(
        plan_command(&world, Command::BuyItem { entity: a, item: ItemId(3) }, true),
        CommandPlan::QueueBuy { entity: a, item: ItemId(3) }
    );
    assert_eq!(
        plan_command(&world, Command::BuyItem { entity: dead, item: ItemId(3) }, true),
        CommandPlan::Skip
    );
}

#[test]
fn command_plans_set_move_and_attack_targets() {
    let mut world = World::<Sim>::new();
    let a = world.spawn();
    let b = world.spawn();
    let p = Vec3::new(4.0, 0.0, 0.0);

    apply_command_plan(&mut world, CommandPlan::Attack { entity: a, target: b });
    assert_eq!(world.attack_targets.get(a).copied(), Some(AttackTarget(Some(b))));
    assert_eq!(world.move_targets.get(a).and_then(|m| m.0), None);
    assert!(world.move_targets.has(a));

    apply_command_plan(&mut world, CommandPlan::MoveTo { entity: a, position: p });
    assert_eq!(world.move_targets.get(a).and_then(|m| m.0), Some(p));
    assert_eq!(world.attack_targets.get(a).copied(), Some(AttackTarget(None)));

    apply_command_plan(&mut world, CommandPlan::Stop { entity: a });
    assert_eq!(world.move_targets.get(a).and_then(|m| m.0), None);
    assert_eq!(world.attack_targets.get(a).copied(), Some(AttackTarget(None)));

    apply_command_plan(&mut world, CommandPlan::QueueBuy { entity: b, item: ItemId(1) });
    apply_command_plan(&mut world, CommandPlan::Skip);
    assert!(!world.move_targets.has(b));
    assert!(!world.attack_targets.has(b));
    let _: Option<&MoveTarget<Vec3>> = world.move_targets.get(b);
}
