use kvstore::store::KeyValueStore;

fn s(x: &str) -> String {
    x.to_string()
}

#[test]
fn fresh_store_reports_not_found() {
    let store = KeyValueStore::new();
    assert_eq!(store.get(&s("anything")), None);
    assert_eq!(store.get(&s("")), None);
}

#[test]
fn put_then_get_returns_value() {
    let mut store = KeyValueStore::new();
    assert_eq!(store.put(s("k"), s("v")), s("v"));
    assert_eq!(store.get(&s("k")), Some(s("v")));
}

#[test]
fn last_write_wins() {
    let mut store = KeyValueStore::new();
    store.put(s("k"), s("v1"));
    assert_eq!(store.put(s("k"), s("v2")), s("v2"));
    assert_eq!(store.get(&s("k")), Some(s("v2")));
}

#[test]
fn delete_returns_latest_write_then_not_found() {
    let mut store = KeyValueStore::new();
    store.put(s("k"), s("old"));
    store.put(s("k"), s("new"));
    store.put(s("other"), s("x"));
    store.delete(&s("other"));
    assert_eq!(store.delete(&s("k")), Some(s("new")));
    assert_eq!(store.get(&s("k")), None);
}

#[test]
fn delete_absent_changes_nothing() {
    let mut store = KeyValueStore::new();
    store.put(s("a"), s("1"));
    store.put(s("b"), s("2"));
    assert_eq!(store.delete(&s("c")), None);
    assert_eq!(store.get(&s("a")), Some(s("1")));
    assert_eq!(store.get(&s("b")), Some(s("2")));
    assert_eq!(store.get(&s("c")), None);
    assert_eq!(store.delete(&s("c")), None);
}

#[test]
fn deleting_one_key_keeps_the_others() {
    let mut store = KeyValueStore::new();
    for i in 0..10 {
        store.put(format!("k{}", i), format!("v{}", i));
    }
    assert_eq!(store.delete(&s("k3")), Some(s("v3")));
    for i in 0..10 {
        let expected = if i == 3 { None } else { Some(format!("v{}", i)) };
        assert_eq!(store.get(&format!("k{}", i)), expected);
    }
}

#[test]
fn empty_value_is_distinct_from_absent() {
    let mut store = KeyValueStore::new();
    store.put(s("k"), s(""));
    assert_eq!(store.get(&s("k")), Some(s("")));
    assert_eq!(store.delete(&s("k")), Some(s("")));
    assert_eq!(store.get(&s("k")), None);
}

#[test]
fn empty_key_is_an_ordinary_key() {
    let mut store = KeyValueStore::new();
    store.put(s(""), s("v"));
    assert_eq!(store.get(&s("")), Some(s("v")));
    assert_eq!(store.get(&s("x")), None);
}

#[test]
fn racing_puts_leave_one_whole_value() {
    for order in [["A", "B"], ["B", "A"]] {
        let mut store = KeyValueStore::new();
        store.put(s("k"), s(order[0]));
        store.put(s("k"), s(order[1]));
        let got = store.get(&s("k")).unwrap();
        assert!(got == "A" || got == "B");
        assert_eq!(got, order[1]);
    }
}
