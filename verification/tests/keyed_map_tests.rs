use donation_transparency::keyed_map::KeyedMap;

#[test]
fn empty_map_has_no_keys() {
    let map: KeyedMap<i64> = KeyedMap::new();
    assert_eq!(map.len(), 0);
    assert_eq!(map.get(&"Greens".to_string()), None);
    assert!(!map.contains_key(&"Greens".to_string()));
}

#[test]
fn read_after_insert_gives_the_value() {
    let mut map: KeyedMap<i64> = KeyedMap::new();
    map.insert("Labor".to_string(), 5);
    map.insert("Liberal".to_string(), 7);
    assert_eq!(map.get(&"Labor".to_string()), Some(&5));
    assert_eq!(map.get(&"Liberal".to_string()), Some(&7));
    assert!(map.contains_key(&"Labor".to_string()));
    assert_eq!(map.len(), 2);
}

#[test]
fn insert_under_present_key_replaces_and_keeps_len() {
    let mut map: KeyedMap<i64> = KeyedMap::new();
    map.insert("Labor".to_string(), 5);
    map.insert("Liberal".to_string(), 7);
    map.insert("Labor".to_string(), 11);
    assert_eq!(map.len(), 2);
    assert_eq!(map.get(&"Labor".to_string()), Some(&11));
    assert_eq!(map.get(&"Liberal".to_string()), Some(&7));
}

#[test]
fn entries_hold_one_pair_per_key() {
    let mut map: KeyedMap<i64> = KeyedMap::new();
    map.insert("b".to_string(), 1);
    map.insert("a".to_string(), 2);
    map.insert("b".to_string(), 3);
    let mut entries = map.into_entries();
    entries.sort();
    assert_eq!(entries, vec![("a".to_string(), 2), ("b".to_string(), 3)]);
}
