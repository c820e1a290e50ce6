use todo_app::store::{StoreError, TodoStore};
use todo_app::todo::Todo;

#[test]
fn round_trip_add_update_find_delete() {
    let mut s = TodoStore::new();
    let id: u128 = 42;
    s.insert(&Todo::new(id, String::from("buy milk")))
        .expect("fresh identifier inserts");

    let rows = s.list_all();
    assert_eq!(rows.iter().filter(|t| t.name == "buy milk").count(), 1);

    assert_eq!(s.update(&Todo::new(id, String::from("buy oat milk"))), 1);
    let found = s.find_by_id(id).expect("row is present");
    assert_eq!(found.uuid, id);
    assert_eq!(found.name, "buy oat milk");

    assert_eq!(s.delete(id), 1);
    assert_eq!(s.find_by_id(id), Err(StoreError::NotFound));
}

#[test]
fn insert_duplicate_identifier_fails() {
    let mut s = TodoStore::new();
    s.insert(&Todo::new(7, String::from("a"))).unwrap();
    assert_eq!(
        s.insert(&Todo::new(7, String::from("b"))),
        Err(StoreError::Duplicate)
    );
    let rows = s.list_all();
    assert_eq!(rows.len(), 1);
    assert_eq!(rows[0].name, "a");
}

#[test]
fn update_absent_affects_zero_rows() {
    let mut s = TodoStore::new();
    s.insert(&Todo::new(1, String::from("a"))).unwrap();
    assert_eq!(s.update(&Todo::new(9, String::from("z"))), 0);
    let rows = s.list_all();
    assert_eq!(rows.len(), 1);
    assert_eq!(rows[0].name, "a");
}

#[test]
fn delete_absent_succeeds_with_zero_rows() {
    let mut s = TodoStore::new();
    s.insert(&Todo::new(1, String::from("a"))).unwrap();
    assert_eq!(s.delete(9), 0);
    assert_eq!(s.list_all().len(), 1);
}

#[test]
fn find_absent_reports_not_found() {
    let s = TodoStore::new();
    assert_eq!(s.find_by_id(3), Err(StoreError::NotFound));
}

#[test]
fn list_all_empty_returns_empty_collection() {
    let s = TodoStore::new();
    assert_eq!(s.len(), 0);
    assert!(s.list_all().is_empty());
}

#[test]
fn list_all_keeps_storage_order() {
    let mut s = TodoStore::new();
    s.insert(&Todo::new(3, String::from("c"))).unwrap();
    s.insert(&Todo::new(1, String::from("a"))).unwrap();
    s.insert(&Todo::new(2, String::from("b"))).unwrap();
    let rows = s.list_all();
    let names: Vec<&str> = rows.iter().map(|t| t.name.as_str()).collect();
    assert_eq!(names, vec!["c", "a", "b"]);
}
