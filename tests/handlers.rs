use kvstore::handlers::{delete_data, get_data, post_data, Response, STATUS_NOT_FOUND, STATUS_OK};
use kvstore::store::KeyValueStore;

fn s(x: &str) -> String {
    x.to_string()
}

fn resp(status: u16, body: &str) -> Response {
    Response { status, body: s(body) }
}

#[test]
fn post_get_delete_get_scenario() {
    let mut store = KeyValueStore::new();
    assert_eq!(post_data(&mut store, s("foo"), s("bar")), resp(200, "bar"));
    assert_eq!(get_data(&store, &s("foo")), resp(200, "bar"));
    assert_eq!(delete_data(&mut store, &s("foo")), resp(200, "bar"));
    assert_eq!(get_data(&store, &s("foo")), resp(404, ""));
}

#[test]
fn get_missing_on_empty_store() {
    let store = KeyValueStore::new();
    assert_eq!(get_data(&store, &s("missing")), resp(404, ""));
}

#[test]
fn delete_missing_is_not_found() {
    let mut store = KeyValueStore::new();
    assert_eq!(delete_data(&mut store, &s("missing")), resp(STATUS_NOT_FOUND, ""));
    assert_eq!(get_data(&store, &s("missing")), resp(STATUS_NOT_FOUND, ""));
}

#[test]
fn status_codes() {
    assert_eq!(STATUS_OK, 200);
    assert_eq!(STATUS_NOT_FOUND, 404);
}

#[test]
fn post_overwrites_and_echoes() {
    let mut store = KeyValueStore::new();
    post_data(&mut store, s("k"), s("one"));
    assert_eq!(post_data(&mut store, s("k"), s("two")), resp(200, "two"));
    assert_eq!(get_data(&store, &s("k")), resp(200, "two"));
}

#[test]
fn stored_empty_value_reads_as_ok() {
    let mut store = KeyValueStore::new();
    assert_eq!(post_data(&mut store, s("k"), s("")), resp(200, ""));
    assert_eq!(get_data(&store, &s("k")), resp(200, ""));
}
