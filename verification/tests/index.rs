use instance_catalog::model::{InstanceIndex, InstanceInfo};

fn entry(id: u128, name: &str) -> InstanceInfo {
    InstanceInfo::new(id, name.to_string())
}

#[test]
fn new_index_is_empty() {
    let index = InstanceIndex::new();
    assert_eq!(index.len(), 0);
    assert!(index.instances.is_empty());
}

#[test]
fn new_entry_has_position_hint_zero() {
    let info = entry(7, "Foo");
    assert_eq!(info.id, 7);
    assert_eq!(info.name, "Foo");
    assert_eq!(info.order_index, 0);
}

#[test]
fn push_appends_at_the_end() {
    let mut index = InstanceIndex::new();
    index.push(entry(1, "one"));
    index.push(entry(2, "two"));
    index.push(entry(3, "three"));
    let ids: Vec<u128> = index.instances.iter().map(|i| i.id).collect();
    assert_eq!(ids, vec![1, 2, 3]);
    assert_eq!(index.len(), 3);
}

#[test]
fn find_returns_the_first_entry_with_the_id() {
    let mut index = InstanceIndex::new();
    index.push(entry(1, "one"));
    index.push(entry(2, "two"));
    index.push(entry(2, "two again"));
    assert_eq!(index.find(2).map(|i| i.name.as_str()), Some("two"));
    assert_eq!(index.find(1).map(|i| i.name.as_str()), Some("one"));
    assert!(index.find(9).is_none());
    assert!(index.contains(2));
    assert!(!index.contains(9));
}

#[test]
fn remove_drops_every_entry_with_the_id_and_keeps_the_order() {
    let mut index = InstanceIndex::new();
    index.push(entry(5, "a"));
    index.push(entry(1, "b"));
    index.push(entry(5, "c"));
    index.push(entry(2, "d"));
    index.push(entry(5, "e"));
    index.remove(5);
    let names: Vec<&str> = index.instances.iter().map(|i| i.name.as_str()).collect();
    assert_eq!(names, vec!["b", "d"]);
    assert!(!index.contains(5));
}

#[test]
fn remove_of_an_absent_id_changes_nothing() {
    let mut index = InstanceIndex::new();
    index.push(entry(1, "one"));
    index.push(entry(2, "two"));
    let before = index.clone();
    index.remove(3);
    assert_eq!(index, before);
}

#[test]
fn remove_from_the_empty_index_leaves_it_empty() {
    let mut index = InstanceIndex::new();
    index.remove(1);
    assert_eq!(index, InstanceIndex::new());
}

#[test]
fn clone_copies_every_entry() {
    let mut index = InstanceIndex::new();
    index.push(entry(1, "one"));
    index.push(entry(2, "two"));
    let copy = index.clone();
    assert_eq!(copy, index);
    assert_eq!(copy.instances[1].name, "two");
}
