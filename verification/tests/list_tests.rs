use todo_app::list::TodoList;

#[test]
fn add_then_list_contains_description_once() {
    let mut l = TodoList::new();
    let id: u128 = l.add(String::from("buy milk")).expect("fresh identifier");
    let snapshot = l.list();
    assert_eq!(snapshot.len(), 1);
    assert_eq!(snapshot[0].name, "buy milk");
    assert_eq!(snapshot[0].uuid, id);
    assert_eq!(
        snapshot.iter().filter(|t| t.name == "buy milk").count(),
        1
    );
}

#[test]
fn adds_generate_distinct_ids_and_keep_all() {
    let mut l = TodoList::new();
    let mut ids: Vec<u128> = Vec::new();
    for i in 0..8 {
        let id: u128 = l.add(format!("task {}", i)).expect("fresh identifier");
        ids.push(id);
    }
    for a in 0..ids.len() {
        for b in (a + 1)..ids.len() {
            assert_ne!(ids[a], ids[b]);
        }
    }
    let snapshot = l.list();
    assert_eq!(snapshot.len(), 8);
    for i in 0..8 {
        assert!(snapshot.iter().any(|t| t.name == format!("task {}", i)));
    }
}

#[test]
fn add_with_id_refuses_duplicate_identifier() {
    let mut l = TodoList::new();
    assert!(l.add_with_id(1, String::from("first")));
    assert!(!l.add_with_id(1, String::from("second")));
    let snapshot = l.list();
    assert_eq!(snapshot.len(), 1);
    assert_eq!(snapshot[0].name, "first");
}

#[test]
fn update_replaces_description_exactly() {
    let mut l = TodoList::new();
    assert!(l.add_with_id(1, String::from("a")));
    assert!(l.add_with_id(2, String::from("b")));
    assert!(l.update(1, String::from("c")));
    let snapshot = l.list();
    assert_eq!(snapshot.len(), 2);
    assert_eq!(snapshot[0].uuid, 1);
    assert_eq!(snapshot[0].name, "c");
    assert_eq!(snapshot[1].uuid, 2);
    assert_eq!(snapshot[1].name, "b");
}

#[test]
fn update_absent_reports_failure_and_changes_nothing() {
    let mut l = TodoList::new();
    assert!(l.add_with_id(1, String::from("a")));
    assert!(!l.update(9, String::from("z")));
    let snapshot = l.list();
    assert_eq!(snapshot.len(), 1);
    assert_eq!(snapshot[0].uuid, 1);
    assert_eq!(snapshot[0].name, "a");
}

#[test]
fn remove_deletes_exactly_that_record() {
    let mut l = TodoList::new();
    assert!(l.add_with_id(1, String::from("a")));
    assert!(l.add_with_id(2, String::from("b")));
    l.remove(1);
    let snapshot = l.list();
    assert_eq!(snapshot.len(), 1);
    assert_eq!(snapshot[0].uuid, 2);
    assert_eq!(snapshot[0].name, "b");
    assert!(!l.contains_id(1));
}

#[test]
fn remove_absent_is_not_an_error() {
    let mut l = TodoList::new();
    assert!(l.add_with_id(1, String::from("a")));
    l.remove(9);
    let snapshot = l.list();
    assert_eq!(snapshot.len(), 1);
    assert_eq!(snapshot[0].uuid, 1);
}

#[test]
fn listing_empty_returns_empty_collection() {
    let l = TodoList::new();
    assert_eq!(l.len(), 0);
    let snapshot = l.list();
    assert!(snapshot.is_empty());
}
