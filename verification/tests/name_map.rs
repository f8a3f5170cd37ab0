use pgcrab::name_map::NameMap;

#[test]
fn get_gives_back_what_insert_put() {
    let mut m: NameMap<String> = NameMap::new();
    assert_eq!(m.len(), 0);
    m.insert("users".to_owned(), "first".to_owned());
    m.insert("accounts".to_owned(), "second".to_owned());
    m.insert("users".to_owned(), "third".to_owned());
    assert_eq!(m.len(), 2);
    assert_eq!(m.get("users").map(|s| s.as_str()), Some("third"));
    assert_eq!(m.get("accounts").map(|s| s.as_str()), Some("second"));
    assert!(m.get("orders").is_none());
}

#[test]
fn entries_come_in_name_order() {
    let mut m: NameMap<String> = NameMap::new();
    for name in ["b", "a", "c", "ab"] {
        m.insert(name.to_owned(), name.to_uppercase());
    }
    let keys: Vec<&str> = (0..m.len()).map(|i| m.key_at(i).as_str()).collect();
    assert_eq!(keys, vec!["a", "ab", "b", "c"]);
    assert_eq!(m.index_of("b"), Some(2));
    assert_eq!(m.index_of("zz"), None);
    let entries = m.into_entries();
    assert_eq!(entries[1], ("ab".to_owned(), "AB".to_owned()));
}

#[test]
fn replacing_a_value_keeps_its_name() {
    let mut m: NameMap<String> = NameMap::new();
    m.insert("t".to_owned(), "old".to_owned());
    let prev = m.replace_value_at(0, "new".to_owned());
    assert_eq!(prev, "old");
    assert_eq!(m.key_at(0), "t");
    assert_eq!(m.value_at(0), "new");
}
