use iris_agentic_dev_core::elicitation::{ElicitationAction, ElicitationStore, EXPIRY_NANOS};

#[test]
fn insert_then_lookup_returns_the_entry() {
    let mut store = ElicitationStore::new();
    let id = store.insert("Doc.cls", ElicitationAction::Put, Some("body".to_string()), None, "USER");
    assert_eq!(id.len(), 36);
    let e = store.lookup(&id).expect("fresh entry");
    assert_eq!(e.document, "Doc.cls");
    assert_eq!(e.content.as_deref(), Some("body"));
    assert_eq!(e.namespace, "USER");
    assert!(store.contains(&id));
}

#[test]
fn clear_and_take_remove() {
    let mut store = ElicitationStore::new();
    let a = store.insert("A", ElicitationAction::ScmExecute, None, Some("%CheckOut".to_string()), "USER");
    let b = store.insert("B", ElicitationAction::Put, None, None, "USER");
    store.clear(&a);
    assert!(!store.contains(&a));
    assert!(store.take(&b).is_some());
    assert!(store.lookup(&b).is_none());
}

#[test]
fn expired_entries_are_dropped() {
    let mut store = ElicitationStore::new();
    let id = store.insert_at("A", ElicitationAction::Put, None, None, "USER", 0);
    assert!(store.lookup_at(&id, EXPIRY_NANOS).is_some());
    assert!(store.lookup_at(&id, EXPIRY_NANOS + 1).is_none());
    assert!(!store.contains(&id));
    let live = store.insert_at("B", ElicitationAction::Put, None, None, "USER", 1000);
    let dead = store.insert_at("C", ElicitationAction::Put, None, None, "USER", 0);
    assert_eq!(store.sweep_at(EXPIRY_NANOS + 500), 1);
    assert!(store.contains(&live));
    assert!(!store.contains(&dead));
}

#[test]
fn sweep_keeps_fresh_entries() {
    let mut store = ElicitationStore::new();
    let id = store.insert("A.cls", ElicitationAction::Put, None, None, "USER");
    assert_eq!(store.sweep(), 0);
    assert!(store.lookup(&id).is_some());
}
