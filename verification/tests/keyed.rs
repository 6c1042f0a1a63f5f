use screen_tune::keyed::Table;

#[test]
fn table_set_get_remove() {
    let mut t: Table<u32> = Table::new();
    assert_eq!(t.get("a"), None);
    t.set("a", 1);
    t.set("b", 2);
    t.set("a", 3);
    assert_eq!(t.get("a"), Some(3));
    assert_eq!(t.get("b"), Some(2));
    assert_eq!(t.entries(), vec![("a".to_string(), 3), ("b".to_string(), 2)]);
    t.remove("a");
    assert_eq!(t.get("a"), None);
    assert_eq!(t.entries(), vec![("b".to_string(), 2)]);
    let copy = t.clone();
    t.clear();
    assert!(t.entries().is_empty());
    assert_eq!(copy.get("b"), Some(2));
}

#[test]
fn table_from_entries_keeps_last() {
    let t = Table::from_entries(&[("x".to_string(), 1u8), ("y".to_string(), 2), ("x".to_string(), 4)]);
    assert_eq!(t.entries(), vec![("x".to_string(), 4), ("y".to_string(), 2)]);
}
