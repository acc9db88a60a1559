use textswitch::trigger_map::TriggerMap;

#[test]
fn insert_replaces_earlier_binding() {
    let mut map = TriggerMap::new();
    assert!(map.is_empty());
    map.insert("a".to_string(), "1".to_string());
    map.insert("b".to_string(), "2".to_string());
    map.insert("a".to_string(), "3".to_string());
    assert_eq!(map.len(), 2);
    assert_eq!(map.get("a"), Some(&"3".to_string()));
    assert_eq!(map.get("b"), Some(&"2".to_string()));
    assert_eq!(map.get("c"), None);
    assert!(map.contains_key("b"));
    assert!(!map.contains_key("ab"));
}

fn table(pairs: &[(&str, &str)]) -> TriggerMap {
    let mut map = TriggerMap::new();
    for (t, r) in pairs {
        map.insert(t.to_string(), r.to_string());
    }
    map
}

#[test]
fn tables_compare_as_maps() {
    let a = table(&[("a", "1"), ("b", "2")]);
    let b = table(&[("b", "2"), ("a", "1")]);
    assert!(a == b);
    assert!(a != table(&[("a", "1")]));
    assert!(a != table(&[("a", "1"), ("b", "3")]));
    assert!(a != table(&[("a", "1"), ("c", "2")]));
    assert!(TriggerMap::new() == TriggerMap::new());
}

#[test]
fn clone_keeps_every_binding() {
    let a = table(&[("cli", "X"), ("ok", "")]);
    let c = a.clone();
    assert!(c == a);
    assert_eq!(c.len(), 2);
    assert_eq!(c.get("cli"), Some(&"X".to_string()));
    assert_eq!(c.get("ok"), Some(&String::new()));
}
