use items_service::dispatch::{apply, dispatch, needs_body, HttpResponse};
use items_service::item::Item;
use items_service::routing::{route, Method, Route};
use items_service::store::Store;

fn item(id: u32, name: &str) -> Item {
    Item { id, name: name.to_string() }
}

fn get_items(store: &mut Store) -> HttpResponse {
    dispatch(store, Method::Get, b"/items", None)
}

#[test]
fn example_scenario() {
    let mut store = Store::new();

    let r = dispatch(&mut store, Method::Post, b"/items", Some(item(1, "a")));
    assert_eq!((r.status, r.body.as_str()), (200, "Item added"));

    let r = dispatch(&mut store, Method::Post, b"/items", Some(item(2, "b")));
    assert_eq!((r.status, r.body.as_str()), (200, "Item added"));

    let r = get_items(&mut store);
    assert_eq!((r.status, r.body.as_str()), (200, r#"[{"id":1,"name":"a"},{"id":2,"name":"b"}]"#));

    let r = dispatch(&mut store, Method::Put, b"/items/1", Some(item(1, "a2")));
    assert_eq!((r.status, r.body.as_str()), (200, "Item updated"));

    let r = get_items(&mut store);
    assert_eq!(r.body, r#"[{"id":1,"name":"a2"},{"id":2,"name":"b"}]"#);

    let r = dispatch(&mut store, Method::Delete, b"/items/2", None);
    assert_eq!((r.status, r.body.as_str()), (200, "Item deleted"));

    let r = get_items(&mut store);
    assert_eq!(r.body, r#"[{"id":1,"name":"a2"}]"#);
}

#[test]
fn round_trip_post_then_get() {
    let mut store = Store::new();
    dispatch(&mut store, Method::Post, b"/items", Some(item(10, "old")));
    let before = get_items(&mut store).body;

    dispatch(&mut store, Method::Post, b"/items", Some(item(11, "new")));
    let after = get_items(&mut store).body;

    let out = store.list();
    let last = out.last().unwrap();
    assert_eq!((last.id, last.name.as_str()), (11, "new"));
    assert!(after.starts_with(before.trim_end_matches(']')));
    assert_eq!(after, r#"[{"id":10,"name":"old"},{"id":11,"name":"new"}]"#);
}

#[test]
fn get_is_idempotent() {
    let mut store = Store::new();
    dispatch(&mut store, Method::Post, b"/items", Some(item(1, "a")));
    dispatch(&mut store, Method::Post, b"/items", Some(item(2, "b")));
    let first = get_items(&mut store);
    let second = get_items(&mut store);
    let third = get_items(&mut store);
    assert_eq!(first.body, second.body);
    assert_eq!(second.body, third.body);
    assert_eq!(first.status, 200);
}

#[test]
fn update_targets_the_first_match() {
    let mut store = Store::new();
    dispatch(&mut store, Method::Post, b"/items", Some(item(5, "A")));
    dispatch(&mut store, Method::Post, b"/items", Some(item(5, "B")));

    let r = dispatch(&mut store, Method::Put, b"/items/5", Some(item(5, "A2")));
    assert_eq!((r.status, r.body.as_str()), (200, "Item updated"));

    let body = get_items(&mut store).body;
    assert_eq!(body, r#"[{"id":5,"name":"A2"},{"id":5,"name":"B"}]"#);
}

#[test]
fn delete_removes_all_matches() {
    let mut store = Store::new();
    dispatch(&mut store, Method::Post, b"/items", Some(item(5, "A")));
    dispatch(&mut store, Method::Post, b"/items", Some(item(5, "B")));
    dispatch(&mut store, Method::Delete, b"/items/5", None);
    assert_eq!(get_items(&mut store).body, "[]");
}

#[test]
fn update_of_an_absent_id_reports_not_found() {
    let mut store = Store::new();
    dispatch(&mut store, Method::Post, b"/items", Some(item(1, "a")));
    let before = get_items(&mut store).body;

    let r = dispatch(&mut store, Method::Put, b"/items/99", Some(item(99, "x")));
    assert_eq!((r.status, r.body.as_str()), (200, "Item not found"));
    assert_eq!(get_items(&mut store).body, before);
}

#[test]
fn delete_of_an_absent_id_still_confirms() {
    let mut store = Store::new();
    dispatch(&mut store, Method::Post, b"/items", Some(item(1, "a")));
    let before = get_items(&mut store).body;

    let r = dispatch(&mut store, Method::Delete, b"/items/99", None);
    assert_eq!((r.status, r.body.as_str()), (200, "Item deleted"));
    assert_eq!(get_items(&mut store).body, before);
}

#[test]
fn unknown_routes_get_404_with_empty_body() {
    let mut store = Store::new();
    let r = dispatch(&mut store, Method::Get, b"/nonexistent", None);
    assert_eq!((r.status, r.body.as_str()), (404, ""));
    let r = dispatch(&mut store, Method::Other, b"/items", None);
    assert_eq!(r.status, 404);
    assert_eq!(store.len(), 0);
}

#[test]
fn an_undecodable_body_is_a_bad_request() {
    let mut store = Store::new();
    let r = dispatch(&mut store, Method::Post, b"/items", None);
    assert_eq!((r.status, r.body.as_str()), (400, ""));
    let r = dispatch(&mut store, Method::Put, b"/items/1", None);
    assert_eq!((r.status, r.body.as_str()), (400, ""));
    assert_eq!(store.len(), 0);
}

#[test]
fn a_malformed_identifier_is_a_bad_request() {
    let mut store = Store::new();
    dispatch(&mut store, Method::Post, b"/items", Some(item(1, "a")));
    let r = dispatch(&mut store, Method::Put, b"/items/abc", Some(item(1, "x")));
    assert_eq!((r.status, r.body.as_str()), (400, ""));
    let r = dispatch(&mut store, Method::Delete, b"/items/5/extra", None);
    assert_eq!((r.status, r.body.as_str()), (400, ""));
    assert_eq!(store.len(), 1);
}

#[test]
fn posts_with_distinct_ids_all_appear_exactly_once() {
    for order in [[3u32, 1, 2], [2, 1, 3]] {
        let mut store = Store::new();
        for id in order {
            let r = dispatch(&mut store, Method::Post, b"/items", Some(item(id, "x")));
            assert_eq!(r.status, 200);
        }
        let out = store.list();
        assert_eq!(out.len(), 3);
        for id in order {
            assert_eq!(out.iter().filter(|it| it.id == id).count(), 1);
        }
    }
}

#[test]
fn only_body_bearing_routes_ask_for_a_body() {
    assert!(needs_body(Route::PostItems));
    assert!(needs_body(Route::PutItem(3)));
    assert!(!needs_body(Route::GetItems));
    assert!(!needs_body(Route::DeleteItem(3)));
    assert!(!needs_body(Route::BadId));
    assert!(!needs_body(Route::NotFound));
}

#[test]
fn apply_matches_dispatch() {
    let mut store_a = Store::new();
    let mut store_b = Store::new();
    let r1 = dispatch(&mut store_a, Method::Post, b"/items", Some(item(1, "a")));
    let r2 = apply(&mut store_b, route(Method::Post, b"/items"), Some(item(1, "a")));
    assert_eq!((r1.status, r1.body), (r2.status, r2.body));
    assert_eq!(get_items(&mut store_a).body, get_items(&mut store_b).body);
}
