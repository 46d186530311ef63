use items_service::item::Item;
use items_service::store::Store;

fn item(id: u32, name: &str) -> Item {
    Item::new(id, name.to_string())
}

#[test]
fn items_carry_what_they_were_built_from() {
    let it = Item::new(3, "n".to_string());
    assert_eq!((it.id, it.name.as_str()), (3, "n"));
    let copy = it.clone();
    assert_eq!((copy.id, copy.name), (it.id, it.name));
}

#[test]
fn new_store_is_empty() {
    let s = Store::new();
    assert_eq!(s.len(), 0);
    assert!(s.list().is_empty());
}

#[test]
fn append_keeps_insertion_order() {
    let mut s = Store::new();
    s.append(item(2, "b"));
    s.append(item(1, "a"));
    s.append(item(2, "c"));
    let out = s.list();
    assert_eq!(out.len(), 3);
    assert_eq!((out[0].id, out[0].name.as_str()), (2, "b"));
    assert_eq!((out[1].id, out[1].name.as_str()), (1, "a"));
    assert_eq!((out[2].id, out[2].name.as_str()), (2, "c"));
}

#[test]
fn replace_hits_first_match_only() {
    let mut s = Store::new();
    s.append(item(7, "first"));
    s.append(item(7, "second"));
    let found = s.replace(7, item(7, "patched"));
    assert!(found);
    let out = s.list();
    assert_eq!(out[0].name, "patched");
    assert_eq!(out[1].name, "second");
}

#[test]
fn replace_may_change_the_identifier() {
    let mut s = Store::new();
    s.append(item(1, "a"));
    let found = s.replace(1, item(9, "renumbered"));
    assert!(found);
    let out = s.list();
    assert_eq!(out[0].id, 9);
    assert!(!s.replace(1, item(1, "gone")));
}

#[test]
fn replace_without_match_changes_nothing() {
    let mut s = Store::new();
    s.append(item(1, "a"));
    let found = s.replace(2, item(2, "b"));
    assert!(!found);
    let out = s.list();
    assert_eq!(out.len(), 1);
    assert_eq!((out[0].id, out[0].name.as_str()), (1, "a"));
}

#[test]
fn remove_all_removes_every_match() {
    let mut s = Store::new();
    s.append(item(5, "a"));
    s.append(item(6, "keep"));
    s.append(item(5, "b"));
    s.remove_all(5);
    let out = s.list();
    assert_eq!(out.len(), 1);
    assert_eq!((out[0].id, out[0].name.as_str()), (6, "keep"));
}

#[test]
fn remove_all_without_match_is_a_noop() {
    let mut s = Store::new();
    s.append(item(1, "a"));
    s.remove_all(2);
    assert_eq!(s.len(), 1);
}
