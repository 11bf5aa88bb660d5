use zenoh_flow::collections::TextMap;

#[test]
fn text_map_insert_then_get() {
    let mut m: TextMap<u32> = TextMap::new();
    assert_eq!(m.insert("a".to_string(), 1), None);
    assert_eq!(m.insert("b".to_string(), 2), None);
    assert_eq!(m.insert("a".to_string(), 3), Some(1));
    assert_eq!(m.get(&"a".to_string()), Some(&3));
    assert_eq!(m.get(&"b".to_string()), Some(&2));
    assert_eq!(m.get(&"c".to_string()), None);
    assert!(m.contains_key(&"a".to_string()));
    assert!(!m.contains_key(&"c".to_string()));
    assert_eq!(m.len(), 2);
}

#[test]
fn text_map_remove_keeps_the_others() {
    let mut m: TextMap<u32> = TextMap::new();
    m.insert("a".to_string(), 1);
    m.insert("b".to_string(), 2);
    m.insert("c".to_string(), 3);
    assert_eq!(m.remove(&"a".to_string()), Some(1));
    assert_eq!(m.remove(&"a".to_string()), None);
    assert_eq!(m.len(), 2);
    assert_eq!(m.get(&"b".to_string()), Some(&2));
    assert_eq!(m.get(&"c".to_string()), Some(&3));
}

#[test]
fn text_map_entries_can_be_walked() {
    let mut m: TextMap<u32> = TextMap::new();
    m.insert("a".to_string(), 1);
    m.insert("b".to_string(), 2);
    let mut seen: Vec<(String, u32)> = Vec::new();
    for i in 0..m.len() {
        seen.push((m.key_at(i).clone(), *m.value_at(i)));
    }
    seen.sort();
    assert_eq!(seen, vec![("a".to_string(), 1), ("b".to_string(), 2)]);
    let copy = m.clone();
    assert_eq!(copy.get(&"b".to_string()), Some(&2));
    assert_eq!(copy.len(), 2);
}
