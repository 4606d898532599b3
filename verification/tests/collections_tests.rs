use win_event_engine::collections::StringMap;

#[test]
fn a_string_map_binds_each_key_once_and_keeps_their_order() {
    let mut map: StringMap<u32> = StringMap::new();
    assert_eq!(map.len(), 0);
    assert!(!map.contains_key("a"));
    assert_eq!(map.get("a"), None);
    assert_eq!(map.position("a"), None);

    map.insert("b".to_string(), 1);
    map.insert("a".to_string(), 2);
    map.insert("".to_string(), 3);
    assert_eq!(map.len(), 3);
    assert_eq!(map.get("a"), Some(&2));
    assert_eq!(map.get(""), Some(&3));
    assert_eq!(map.position("b"), Some(0));
    assert_eq!(map.position("a"), Some(1));

    map.insert("b".to_string(), 4);
    assert_eq!(map.len(), 3);
    assert_eq!(map.get("b"), Some(&4));
    assert_eq!(map.position("b"), Some(0));
    assert!(map.contains_key("b"));
    assert!(!map.contains_key("B"));
    assert_eq!(
        map.entries(),
        &vec![("b".to_string(), 4), ("a".to_string(), 2), ("".to_string(), 3)]
    );
}
