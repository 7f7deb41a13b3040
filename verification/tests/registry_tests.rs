use justrans::models::{FileInfo, FileList};

fn record(id: &str, name: &str) -> FileInfo {
    FileInfo {
        id: id.to_string(),
        name: name.to_string(),
        path: format!("/srv/{}", name),
        size: name.len() as u64,
        mime_type: "text/plain".to_string(),
    }
}

fn ids(list: &FileList) -> Vec<String> {
    list.files.iter().map(|f| f.id.clone()).collect()
}

#[test]
fn new_registry_is_empty() {
    let list = FileList::new();
    assert_eq!(list.len(), 0);
    assert!(list.is_empty());
    assert!(list.get_file_by_id("a").is_none());
    assert!(list.get_file_at(0).is_none());
    assert!(FileList::default().is_empty());
}

#[test]
fn add_file_appends_in_order() {
    let mut list = FileList::new();
    list.add_file(record("a", "one"));
    list.add_file(record("b", "two"));
    list.add_file(record("c", "three"));
    assert_eq!(ids(&list), vec!["a", "b", "c"]);
    assert_eq!(list.len(), 3);
    assert!(!list.is_empty());
}

#[test]
fn get_file_by_id_finds_the_record() {
    let mut list = FileList::new();
    list.add_file(record("a", "one"));
    list.add_file(record("b", "two"));
    let found = list.get_file_by_id("b").unwrap();
    assert_eq!(found.name, "two");
    assert_eq!(found.path, "/srv/two");
    assert_eq!(found.size, 3);
    assert_eq!(found.mime_type, "text/plain");
    assert!(list.get_file_by_id("c").is_none());
    assert!(list.get_file_by_id("").is_none());
}

#[test]
fn get_file_by_id_returns_the_first_of_equal_ids() {
    let mut list = FileList::new();
    list.add_file(record("a", "first"));
    list.add_file(record("a", "second"));
    assert_eq!(list.get_file_by_id("a").unwrap().name, "first");
    assert_eq!(list.position_of_id("a"), Some(0));
}

#[test]
fn get_file_at_is_none_out_of_range() {
    let mut list = FileList::new();
    list.add_file(record("a", "one"));
    assert_eq!(list.get_file_at(0).unwrap().id, "a");
    assert!(list.get_file_at(1).is_none());
    assert!(list.get_file_at(usize::MAX).is_none());
}

#[test]
fn remove_file_at_returns_the_record_and_keeps_the_order() {
    let mut list = FileList::new();
    list.add_file(record("a", "one"));
    list.add_file(record("b", "two"));
    list.add_file(record("c", "three"));
    let removed = list.remove_file_at(1).unwrap();
    assert_eq!(removed.id, "b");
    assert_eq!(ids(&list), vec!["a", "c"]);
}

#[test]
fn remove_file_at_out_of_range_changes_nothing() {
    let mut list = FileList::new();
    list.add_file(record("a", "one"));
    assert!(list.remove_file_at(1).is_none());
    assert!(list.remove_file_at(usize::MAX).is_none());
    assert_eq!(ids(&list), vec!["a"]);
}

#[test]
fn remove_file_by_id_removes_the_first_match_only() {
    let mut list = FileList::new();
    list.add_file(record("a", "one"));
    list.add_file(record("b", "two"));
    list.add_file(record("a", "three"));
    let removed = list.remove_file_by_id("a").unwrap();
    assert_eq!(removed.name, "one");
    assert_eq!(ids(&list), vec!["b", "a"]);
    assert_eq!(list.get_file_by_id("a").unwrap().name, "three");
}

#[test]
fn remove_file_by_id_of_unknown_id_changes_nothing() {
    let mut list = FileList::new();
    list.add_file(record("a", "one"));
    assert!(list.remove_file_by_id("z").is_none());
    assert_eq!(ids(&list), vec!["a"]);
}

#[test]
fn snapshot_is_a_deep_copy() {
    let mut list = FileList::new();
    list.add_file(record("a", "one"));
    list.add_file(record("b", "two"));
    let copy = list.snapshot();
    list.add_file(record("c", "three"));
    list.files[0].name = "changed".to_string();
    assert_eq!(ids(&copy), vec!["a", "b"]);
    assert_eq!(copy.files[0].name, "one");
    assert_eq!(copy.files[1].path, "/srv/two");
    let again = copy.clone();
    assert_eq!(ids(&again), vec!["a", "b"]);
}

#[test]
fn clone_of_a_record_keeps_every_field() {
    let original = record("a", "one");
    let copy = original.clone();
    assert_eq!(copy.id, "a");
    assert_eq!(copy.name, "one");
    assert_eq!(copy.path, "/srv/one");
    assert_eq!(copy.size, 3);
    assert_eq!(copy.mime_type, "text/plain");
}

#[test]
fn clear_empties_the_registry() {
    let mut list = FileList::new();
    list.add_file(record("a", "one"));
    list.clear();
    assert!(list.is_empty());
    assert!(list.get_file_by_id("a").is_none());
}
