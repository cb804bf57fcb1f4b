use tyrnak_engine::entity::{EntityAllocator, EntityId};

#[test]
fn entity_id_invalid_sentinel() {
    let id = EntityId::invalid();
    assert!(!id.is_valid());
    assert_eq!(id.index, u32::MAX);
    assert_eq!(id.generation, u32::MAX);
}

#[test]
fn entity_id_valid() {
    assert!(EntityId::new(0, 0).is_valid());
    assert!(EntityId::new(42, 7).is_valid());
}

#[test]
fn entity_id_default_is_invalid() {
    assert_eq!(EntityId::default(), EntityId::invalid());
}

#[test]
fn entity_id_half_max_is_valid() {
    assert!(EntityId::new(u32::MAX, 0).is_valid());
    assert!(EntityId::new(0, u32::MAX).is_valid());
}

#[test]
fn allocator_basic_allocate() {
    let mut alloc = EntityAllocator::new();
    let a = alloc.allocate();
    let b = alloc.allocate();
    assert_eq!(a.index, 0);
    assert_eq!(b.index, 1);
    assert_eq!(a.generation, 0);
    assert_eq!(b.generation, 0);
    assert_eq!(alloc.alive_count(), 2);
}

#[test]
fn allocator_is_alive() {
    let mut alloc = EntityAllocator::new();
    let a = alloc.allocate();
    assert!(alloc.is_alive(a));

    let stale = EntityId::new(a.index, a.generation + 1);
    assert!(!alloc.is_alive(stale));
}

#[test]
fn allocator_deallocate_makes_dead() {
    let mut alloc = EntityAllocator::new();
    let a = alloc.allocate();
    assert!(alloc.deallocate(a));
    assert!(!alloc.is_alive(a));
    assert_eq!(alloc.alive_count(), 0);
}

#[test]
fn allocator_double_deallocate_returns_false() {
    let mut alloc = EntityAllocator::new();
    let a = alloc.allocate();
    assert!(alloc.deallocate(a));
    assert!(!alloc.deallocate(a));
}

#[test]
fn allocator_generation_increments_on_reuse() {
    let mut alloc = EntityAllocator::new();
    let a = alloc.allocate();
    assert_eq!(a.generation, 0);
    alloc.deallocate(a);

    let b = alloc.allocate();
    assert_eq!(b.index, a.index);
    assert_eq!(b.generation, 1);
    assert!(!alloc.is_alive(a));
    assert!(alloc.is_alive(b));
}

#[test]
fn allocator_reuses_freed_slots() {
    let mut alloc = EntityAllocator::new();
    let a = alloc.allocate();
    let _b = alloc.allocate();
    alloc.deallocate(a);

    let c = alloc.allocate();
    assert_eq!(c.index, a.index);
    assert_eq!(c.generation, 1);
    assert_eq!(alloc.alive_count(), 2);
}

#[test]
fn allocator_free_list_is_lifo() {
    let mut alloc = EntityAllocator::default();
    let a = alloc.allocate();
    let b = alloc.allocate();
    let c = alloc.allocate();
    assert!(alloc.deallocate(a));
    assert!(alloc.deallocate(c));
    let first = alloc.allocate();
    let second = alloc.allocate();
    assert_eq!(first, EntityId::new(c.index, 1));
    assert_eq!(second, EntityId::new(a.index, 1));
    assert!(alloc.is_alive(b));
    assert_eq!(alloc.alive_count(), 3);
}

#[test]
fn allocator_stale_id_stays_dead_after_many_reuses() {
    let mut alloc = EntityAllocator::new();
    let original = alloc.allocate();
    let mut current = original;
    for _ in 0..5 {
        assert!(alloc.deallocate(current));
        current = alloc.allocate();
        assert_eq!(current.index, original.index);
        assert!(!alloc.is_alive(original));
    }
    assert_eq!(current.generation, 5);
    assert_eq!(alloc.alive_count(), 1);
}

#[test]
fn allocator_deallocate_unknown_index_is_noop() {
    let mut alloc = EntityAllocator::new();
    let _a = alloc.allocate();
    assert!(!alloc.deallocate(EntityId::invalid()));
    assert!(!alloc.deallocate(EntityId::new(7, 0)));
    assert_eq!(alloc.alive_count(), 1);
}

#[test]
fn freed_slot_next_generation_is_not_alive() {
    let mut alloc = EntityAllocator::new();
    let a = alloc.allocate();
    assert_eq!(a, EntityId::new(0, 0));
    assert!(alloc.deallocate(a));
    assert!(!alloc.is_alive(a));
    // The slot is free, so no id naming it is alive, whatever its generation.
    assert!(!alloc.is_alive(EntityId::new(0, 1)));
    assert!(!alloc.is_in_use(0));
    // Deallocating such an id is refused and changes nothing.
    assert!(!alloc.deallocate(EntityId::new(0, 1)));
    assert_eq!(alloc.alive_count(), 0);
    let b = alloc.allocate();
    assert_eq!(b, EntityId::new(0, 1));
    assert!(alloc.is_alive(b));
    assert!(alloc.is_in_use(0));
}

#[test]
fn generation_counts_how_often_a_slot_was_freed() {
    let mut alloc = EntityAllocator::new();
    let mut id = alloc.allocate();
    for _ in 0..3 {
        assert!(alloc.deallocate(id));
        id = alloc.allocate();
    }
    assert_eq!(id, EntityId::new(0, 3));
    // A refused deallocation does not count.
    assert!(!alloc.deallocate(EntityId::new(0, 0)));
    assert!(alloc.deallocate(id));
    assert_eq!(alloc.allocate(), EntityId::new(0, 4));
}
