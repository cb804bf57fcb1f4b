use glam::Vec3;
use tyrnak_engine::component::{AttackTarget, ComponentStore, Team};
use tyrnak_engine::entity::EntityId;

#[derive(Debug, Clone)]
struct Position(Vec3);

#[derive(Debug, Clone)]
struct Health {
    current: f32,
    max: f32,
}

fn make_id(index: u32) -> EntityId {
    EntityId::new(index, 0)
}

#[test]
fn store_insert_and_get() {
    let mut store = ComponentStore::<Position>::new();
    let id = make_id(0);
    store.insert(id, Position(Vec3::new(1.0, 2.0, 3.0)));
    assert!(store.has(id));
    let p = store.get(id).unwrap();
    assert_eq!(p.0, Vec3::new(1.0, 2.0, 3.0));
}

#[test]
fn store_get_missing_returns_none() {
    let store = ComponentStore::<Health>::new();
    assert!(store.get(make_id(0)).is_none());
    assert!(!store.has(make_id(0)));
}

#[test]
fn store_remove() {
    let mut store = ComponentStore::<Health>::new();
    let id = make_id(0);
    store.insert(
        id,
        Health {
            current: 100.0,
            max: 100.0,
        },
    );
    let removed = store.remove(id);
    assert!(removed.is_some());
    assert!(!store.has(id));
}

#[test]
fn store_remove_missing_returns_none() {
    let mut store = ComponentStore::<Health>::new();
    assert!(store.remove(make_id(5)).is_none());
}

#[test]
fn store_get_mut() {
    let mut store = ComponentStore::<Health>::new();
    let id = make_id(0);
    store.insert(
        id,
        Health {
            current: 100.0,
            max: 100.0,
        },
    );
    store.get_mut(id).unwrap().current = 50.0;
    assert_eq!(store.get(id).unwrap().current, 50.0);
    assert_eq!(store.get(id).unwrap().max, 100.0);
}

#[test]
fn store_grows_on_high_index() {
    let mut store = ComponentStore::<Team>::new();
    let id = EntityId::new(100, 0);
    store.insert(id, Team(2));
    assert!(store.has(id));
    assert_eq!(store.get(id).unwrap().0, 2);
}

#[test]
fn store_iter() {
    let mut store = ComponentStore::<Team>::new();
    store.insert(make_id(0), Team(1));
    store.insert(make_id(3), Team(2));

    let collected: Vec<_> = store.iter();
    assert_eq!(collected.len(), 2);
    assert_eq!(collected[0].0, 0);
    assert_eq!(collected[1].0, 3);
}

#[test]
fn store_iter_mut() {
    let mut store = ComponentStore::<Health>::new();
    store.insert(
        make_id(0),
        Health {
            current: 100.0,
            max: 100.0,
        },
    );
    store.insert(
        make_id(1),
        Health {
            current: 80.0,
            max: 100.0,
        },
    );

    for (_idx, h) in store.iter_mut() {
        h.current -= 10.0;
    }

    assert_eq!(store.get(make_id(0)).unwrap().current, 90.0);
    assert_eq!(store.get(make_id(1)).unwrap().current, 70.0);
}

#[test]
fn store_overwrite() {
    let mut store = ComponentStore::<Team>::new();
    let id = make_id(0);
    store.insert(id, Team(1));
    store.insert(id, Team(2));
    assert_eq!(store.get(id).unwrap().0, 2);
}

#[test]
fn store_remove_then_reinsert_and_iter_skips_gaps() {
    let mut store = ComponentStore::<Team>::default();
    store.insert(make_id(5), Team(5));
    store.insert(make_id(2), Team(2));
    assert_eq!(store.remove(make_id(5)).map(|t| t.0), Some(5));
    assert!(store.remove(make_id(5)).is_none());
    store.insert(make_id(4), Team(4));
    let indices: Vec<u32> = store.iter().into_iter().map(|(i, _)| i).collect();
    assert_eq!(indices, vec![2, 4]);
}

#[test]
fn store_lookup_ignores_generation() {
    let mut store = ComponentStore::<AttackTarget>::new();
    store.insert(EntityId::new(3, 0), AttackTarget(Some(EntityId::new(9, 1))));
    assert_eq!(
        store.get(EntityId::new(3, 7)).copied(),
        Some(AttackTarget(Some(EntityId::new(9, 1))))
    );
}
