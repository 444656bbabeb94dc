use passkeys::registry::PasskeyRegistry;

#[test]
fn empty_registry() {
    let registry = PasskeyRegistry::new();
    assert_eq!(registry.count(), 0);
    assert!(registry.list_ids().is_empty());
    assert_eq!(registry.lookup(b"anything"), None);
}

#[test]
fn insert_then_lookup() {
    let mut registry = PasskeyRegistry::new();
    assert!(registry.insert(b"id-1".to_vec(), b"key-1".to_vec()).is_ok());
    assert_eq!(registry.count(), 1);
    assert_eq!(registry.lookup(b"id-1"), Some(b"key-1".to_vec()));
    assert_eq!(registry.lookup(b"id-2"), None);
}

#[test]
fn duplicate_id_is_a_conflict() {
    let mut registry = PasskeyRegistry::new();
    assert!(registry.insert(b"id-1".to_vec(), b"key-1".to_vec()).is_ok());
    assert!(registry.insert(b"id-1".to_vec(), b"key-2".to_vec()).is_err());
    assert_eq!(registry.count(), 1);
    assert_eq!(registry.lookup(b"id-1"), Some(b"key-1".to_vec()));
}

#[test]
fn ids_keep_insertion_order() {
    let mut registry = PasskeyRegistry::new();
    assert!(registry.insert(b"id-1".to_vec(), b"key-1".to_vec()).is_ok());
    assert!(registry.insert(b"id-2".to_vec(), b"key-2".to_vec()).is_ok());
    assert!(registry.insert(b"id-3".to_vec(), b"key-3".to_vec()).is_ok());
    assert_eq!(
        registry.list_ids(),
        vec![b"id-1".to_vec(), b"id-2".to_vec(), b"id-3".to_vec()]
    );
}
