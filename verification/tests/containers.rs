use server::{Registry, RemoteState, StateStore, UserId, Vec2};

fn state(id: usize, x: f32, y: f32, rot: f32) -> RemoteState {
    RemoteState {
        id: UserId::from_usize(id),
        pos: Vec2 { x: x.to_bits(), y: y.to_bits() },
        rot: rot.to_bits(),
    }
}

fn sorted_ids(mut ids: Vec<UserId>) -> Vec<usize> {
    let mut numbers: Vec<usize> = ids.drain(..).map(|id| id.as_usize()).collect();
    numbers.sort();
    numbers
}

#[test]
fn new_store_is_empty() {
    let store = StateStore::new();
    assert!(store.is_empty());
    assert!(store.snapshot().is_empty());
    assert_eq!(store.get(UserId::from_usize(1)), None);
}

#[test]
fn store_keeps_the_latest_state_only() {
    let mut store = StateStore::new();
    store.insert(state(1, 1.0, 2.0, 0.5));
    store.insert(state(1, 3.0, 4.0, 1.5));
    assert_eq!(store.get(UserId::from_usize(1)), Some(state(1, 3.0, 4.0, 1.5)));
    assert_eq!(store.snapshot(), vec![state(1, 3.0, 4.0, 1.5)]);
    assert!(!store.is_empty());
}

#[test]
fn store_remove_returns_what_was_there() {
    let mut store = StateStore::new();
    store.insert(state(1, 1.0, 2.0, 0.5));
    store.insert(state(2, 5.0, 6.0, 0.0));
    assert_eq!(store.remove(UserId::from_usize(1)), Some(state(1, 1.0, 2.0, 0.5)));
    assert_eq!(store.get(UserId::from_usize(1)), None);
    assert_eq!(store.get(UserId::from_usize(2)), Some(state(2, 5.0, 6.0, 0.0)));
    assert_eq!(store.snapshot(), vec![state(2, 5.0, 6.0, 0.0)]);
}

#[test]
fn store_remove_of_absent_identity_changes_nothing() {
    let mut store = StateStore::new();
    assert_eq!(store.remove(UserId::from_usize(9)), None);
    assert!(store.is_empty());
    store.insert(state(1, 1.0, 2.0, 0.5));
    assert_eq!(store.remove(UserId::from_usize(9)), None);
    assert_eq!(store.snapshot(), vec![state(1, 1.0, 2.0, 0.5)]);
}

#[test]
fn snapshot_lists_every_state_once() {
    let mut store = StateStore::new();
    for id in 1..=50usize {
        store.insert(state(id, id as f32, 0.0, 0.0));
    }
    let snapshot = store.snapshot();
    assert_eq!(snapshot.len(), 50);
    for id in 1..=50usize {
        let expected = state(id, id as f32, 0.0, 0.0);
        assert_eq!(snapshot.iter().filter(|held| **held == expected).count(), 1);
    }
}

#[test]
fn snapshot_is_a_copy() {
    let mut store = StateStore::new();
    store.insert(state(1, 1.0, 2.0, 0.5));
    let snapshot = store.snapshot();
    store.insert(state(1, 9.0, 9.0, 9.0));
    store.remove(UserId::from_usize(1));
    assert_eq!(snapshot, vec![state(1, 1.0, 2.0, 0.5)]);
}

#[test]
fn new_registry_is_empty() {
    let registry: Registry<&str> = Registry::new();
    assert!(registry.is_empty());
    assert!(registry.ids().is_empty());
    assert!(!registry.contains(UserId::from_usize(1)));
    assert_eq!(registry.get(UserId::from_usize(1)), None);
}

#[test]
fn registry_insert_and_get() {
    let mut registry: Registry<&str> = Registry::new();
    assert_eq!(registry.insert(UserId::from_usize(1), "a"), None);
    assert_eq!(registry.insert(UserId::from_usize(2), "b"), None);
    assert_eq!(registry.get(UserId::from_usize(1)), Some(&"a"));
    assert_eq!(registry.get(UserId::from_usize(2)), Some(&"b"));
    assert!(registry.contains(UserId::from_usize(2)));
    assert!(!registry.contains(UserId::from_usize(3)));
    assert!(!registry.is_empty());
    assert_eq!(sorted_ids(registry.ids()), vec![1, 2]);
}

#[test]
fn registry_insert_replaces_the_handle() {
    let mut registry: Registry<&str> = Registry::new();
    registry.insert(UserId::from_usize(1), "a");
    assert_eq!(registry.insert(UserId::from_usize(1), "z"), Some("a"));
    assert_eq!(registry.get(UserId::from_usize(1)), Some(&"z"));
    assert_eq!(sorted_ids(registry.ids()), vec![1]);
}

#[test]
fn registry_remove_returns_the_handle() {
    let mut registry: Registry<&str> = Registry::new();
    registry.insert(UserId::from_usize(1), "a");
    registry.insert(UserId::from_usize(2), "b");
    assert_eq!(registry.remove(UserId::from_usize(1)), Some("a"));
    assert!(!registry.contains(UserId::from_usize(1)));
    assert_eq!(sorted_ids(registry.ids()), vec![2]);
}

#[test]
fn registry_remove_of_absent_identity_changes_nothing() {
    let mut registry: Registry<&str> = Registry::new();
    registry.insert(UserId::from_usize(1), "a");
    assert_eq!(registry.remove(UserId::from_usize(5)), None);
    assert_eq!(sorted_ids(registry.ids()), vec![1]);
}

#[test]
fn registry_ids_lists_everybody_once() {
    let mut registry: Registry<usize> = Registry::new();
    for id in 1..=64usize {
        registry.insert(UserId::from_usize(id), id * 10);
    }
    let expected: Vec<usize> = (1..=64usize).collect();
    assert_eq!(sorted_ids(registry.ids()), expected);
}
