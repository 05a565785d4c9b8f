//! The generational-index arena: stale ids stop resolving after removal.

use sprite_instancing::arena::Arena;

#[test]
fn insert_then_get_returns_the_value() {
    let mut arena: Arena<u32> = Arena::new();
    let a = arena.insert(10);
    let b = arena.insert(20);
    assert_eq!(arena.get(a), Some(&10));
    assert_eq!(arena.get(b), Some(&20));
    assert_ne!(a, b);
}

#[test]
fn removal_invalidates_the_id() {
    let mut arena: Arena<u32> = Arena::new();
    let a = arena.insert(10);
    assert_eq!(arena.remove(a), Some(10));
    assert_eq!(arena.get(a), None, "a removed id is dangling, not reused");
    assert_eq!(arena.remove(a), None);
}

#[test]
fn a_reused_slot_gets_a_new_generation() {
    let mut arena: Arena<u32> = Arena::new();
    let a = arena.insert(10);
    arena.remove(a);
    let b = arena.insert(30);
    assert_eq!(a.index, b.index, "the slot is reused");
    assert_ne!(a.generation, b.generation, "under a fresh generation");
    assert_eq!(arena.get(a), None, "the stale id still resolves to nothing");
    assert_eq!(arena.get(b), Some(&30));
}

#[test]
fn removal_leaves_other_values_alone() {
    let mut arena: Arena<u32> = Arena::new();
    let a = arena.insert(1);
    let b = arena.insert(2);
    let c = arena.insert(3);
    arena.remove(b);
    assert_eq!(arena.get(a), Some(&1));
    assert_eq!(arena.get(b), None);
    assert_eq!(arena.get(c), Some(&3));
}
