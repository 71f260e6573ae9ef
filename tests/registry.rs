use browsehand::registry::PendingRegistry;

#[test]
fn registry_insert_take_remove() {
    let mut reg: PendingRegistry<u32> = PendingRegistry::new();
    assert_eq!(reg.len(), 0);
    reg.insert("a".to_string(), 1);
    reg.insert("b".to_string(), 2);
    assert_eq!(reg.len(), 2);
    assert!(reg.contains(&"a".to_string()));
    assert_eq!(reg.take(&"a".to_string()), Some(1));
    assert_eq!(reg.take(&"a".to_string()), None);
    assert!(!reg.contains(&"a".to_string()));
    reg.remove(&"zzz".to_string());
    assert_eq!(reg.len(), 1);
    reg.remove(&"b".to_string());
    assert_eq!(reg.len(), 0);
}

#[test]
fn registry_insert_replaces_same_identifier() {
    let mut reg: PendingRegistry<u32> = PendingRegistry::new();
    reg.insert("k".to_string(), 1);
    reg.insert("k".to_string(), 9);
    assert_eq!(reg.len(), 1);
    assert_eq!(reg.take(&"k".to_string()), Some(9));
}
