use todo_service::store::{Store, StoreError};
use todo_service::todo::{Todo, UpdateTodo};

fn todo(id: u32, title: &str, completed: bool) -> Todo {
    Todo { id, title: title.to_string(), completed }
}

fn changes(title: Option<&str>, completed: Option<bool>) -> UpdateTodo {
    UpdateTodo { title: title.map(|t| t.to_string()), completed }
}

fn ids(store: &Store) -> Vec<u32> {
    store.list().iter().map(|t| t.id).collect()
}

#[test]
fn new_store_lists_nothing() {
    let store = Store::new();
    assert_eq!(store.list(), Vec::<Todo>::new());
    assert!(!store.is_full());
}

#[test]
fn create_hands_out_one_then_two() {
    let mut store = Store::new();
    assert_eq!(store.create("first".to_string()), todo(1, "first", false));
    assert_eq!(store.create("second".to_string()), todo(2, "second", false));
    assert_eq!(store.list(), vec![todo(1, "first", false), todo(2, "second", false)]);
}

#[test]
fn create_accepts_an_empty_title() {
    let mut store = Store::new();
    assert_eq!(store.create(String::new()), todo(1, "", false));
    assert_eq!(store.get(1), Ok(todo(1, "", false)));
}

#[test]
fn create_then_get_gives_the_same_record() {
    let mut store = Store::new();
    store.create("earlier".to_string());
    let created = store.create("buy milk".to_string());
    assert_eq!(created.title, "buy milk");
    assert!(!created.completed);
    assert_eq!(store.get(created.id), Ok(created));
}

#[test]
fn get_on_an_empty_store_is_not_found() {
    let store = Store::new();
    assert_eq!(store.get(999), Err(StoreError::NotFound));
}

#[test]
fn identifier_zero_is_never_found() {
    let mut store = Store::new();
    store.create("a".to_string());
    assert_eq!(store.get(0), Err(StoreError::NotFound));
    assert_eq!(store.update(0, changes(Some("x"), None)), Err(StoreError::NotFound));
    assert_eq!(store.delete(0), Err(StoreError::NotFound));
    assert_eq!(store.list(), vec![todo(1, "a", false)]);
}

#[test]
fn identifier_not_yet_handed_out_is_not_found() {
    let mut store = Store::new();
    store.create("a".to_string());
    store.create("b".to_string());
    assert_eq!(store.get(3), Err(StoreError::NotFound));
    assert_eq!(store.update(3, changes(None, Some(true))), Err(StoreError::NotFound));
    assert_eq!(store.delete(3), Err(StoreError::NotFound));
    assert_eq!(store.get(u32::MAX), Err(StoreError::NotFound));
    assert_eq!(store.list(), vec![todo(1, "a", false), todo(2, "b", false)]);
}

#[test]
fn update_of_completed_keeps_the_title() {
    let mut store = Store::new();
    store.create("buy milk".to_string());
    assert_eq!(store.update(1, changes(None, Some(true))), Ok(todo(1, "buy milk", true)));
    assert_eq!(store.get(1), Ok(todo(1, "buy milk", true)));
}

#[test]
fn update_of_title_keeps_completed() {
    let mut store = Store::new();
    store.create("buy milk".to_string());
    store.update(1, changes(None, Some(true))).unwrap();
    assert_eq!(store.update(1, changes(Some("buy bread"), None)), Ok(todo(1, "buy bread", true)));
    assert_eq!(store.get(1), Ok(todo(1, "buy bread", true)));
}

#[test]
fn update_of_both_fields() {
    let mut store = Store::new();
    store.create("buy milk".to_string());
    assert_eq!(
        store.update(1, changes(Some("walk"), Some(true))),
        Ok(todo(1, "walk", true))
    );
    assert_eq!(
        store.update(1, changes(Some(""), Some(false))),
        Ok(todo(1, "", false))
    );
    assert_eq!(store.list(), vec![todo(1, "", false)]);
}

#[test]
fn update_of_nothing_keeps_the_record() {
    let mut store = Store::new();
    store.create("buy milk".to_string());
    store.update(1, changes(None, Some(true))).unwrap();
    assert_eq!(store.update(1, changes(None, None)), Ok(todo(1, "buy milk", true)));
    assert_eq!(store.list(), vec![todo(1, "buy milk", true)]);
}

#[test]
fn update_changes_no_other_record() {
    let mut store = Store::new();
    store.create("a".to_string());
    store.create("b".to_string());
    store.create("c".to_string());
    assert_eq!(store.update(2, changes(Some("B"), Some(true))), Ok(todo(2, "B", true)));
    assert_eq!(
        store.list(),
        vec![todo(1, "a", false), todo(2, "B", true), todo(3, "c", false)]
    );
}

#[test]
fn update_of_an_unknown_identifier_changes_nothing() {
    let mut store = Store::new();
    store.create("a".to_string());
    assert_eq!(store.update(7, changes(Some("x"), Some(true))), Err(StoreError::NotFound));
    assert_eq!(store.list(), vec![todo(1, "a", false)]);
}

#[test]
fn delete_removes_the_record_and_keeps_the_order() {
    let mut store = Store::new();
    store.create("a".to_string());
    store.create("b".to_string());
    store.create("c".to_string());
    assert_eq!(store.delete(2), Ok(()));
    assert_eq!(store.list(), vec![todo(1, "a", false), todo(3, "c", false)]);
    assert_eq!(store.delete(1), Ok(()));
    assert_eq!(store.list(), vec![todo(3, "c", false)]);
    assert_eq!(store.delete(3), Ok(()));
    assert_eq!(store.list(), Vec::<Todo>::new());
}

#[test]
fn deleted_record_is_not_found_again() {
    let mut store = Store::new();
    store.create("a".to_string());
    store.create("b".to_string());
    assert_eq!(store.delete(1), Ok(()));
    assert_eq!(store.get(1), Err(StoreError::NotFound));
    assert_eq!(store.update(1, changes(None, Some(true))), Err(StoreError::NotFound));
    assert_eq!(store.delete(1), Err(StoreError::NotFound));
    assert_eq!(store.list(), vec![todo(2, "b", false)]);
}

#[test]
fn delete_of_an_unknown_identifier_changes_nothing() {
    let mut store = Store::new();
    store.create("a".to_string());
    assert_eq!(store.delete(999), Err(StoreError::NotFound));
    assert_eq!(store.list(), vec![todo(1, "a", false)]);
}

#[test]
fn retired_identifier_is_not_handed_out_again() {
    let mut store = Store::new();
    assert_eq!(store.create("a".to_string()).id, 1);
    assert_eq!(store.delete(1), Ok(()));
    assert_eq!(store.create("b".to_string()), todo(2, "b", false));
    assert_eq!(store.get(1), Err(StoreError::NotFound));
    assert_eq!(store.list(), vec![todo(2, "b", false)]);
}

#[test]
fn identifiers_stay_unique_under_create_and_delete() {
    let mut store = Store::new();
    store.create("a".to_string());
    store.create("b".to_string());
    store.delete(1).unwrap();
    store.create("c".to_string());
    store.create("d".to_string());
    store.delete(3).unwrap();
    store.create("e".to_string());
    let seen = ids(&store);
    assert_eq!(seen, vec![2, 4, 5]);
    for (i, a) in seen.iter().enumerate() {
        for b in seen.iter().skip(i + 1) {
            assert_ne!(a, b);
        }
    }
}

#[test]
fn list_holds_every_record_in_its_last_state() {
    let mut store = Store::new();
    for n in 0..20 {
        store.create(format!("task {}", n));
    }
    store.update(5, changes(None, Some(true))).unwrap();
    store.update(7, changes(Some("seven"), None)).unwrap();
    store.update(5, changes(Some("five"), None)).unwrap();
    let listed = store.list();
    assert_eq!(listed.len(), 20);
    for (n, record) in listed.iter().enumerate() {
        let id = n as u32 + 1;
        let expected = match id {
            5 => todo(5, "five", true),
            7 => todo(7, "seven", false),
            _ => todo(id, &format!("task {}", n), false),
        };
        assert_eq!(record, &expected);
        assert_eq!(store.get(id).as_ref(), Ok(record));
    }
}

#[test]
fn list_hands_out_copies() {
    let mut store = Store::new();
    store.create("a".to_string());
    let mut listed = store.list();
    listed[0].title = "changed".to_string();
    listed.push(todo(9, "extra", true));
    let mut got = store.get(1).unwrap();
    got.completed = true;
    assert_eq!(store.list(), vec![todo(1, "a", false)]);
}

#[test]
fn clone_of_a_record_is_equal() {
    let record = todo(3, "walk the dog", true);
    let copy = record.clone();
    assert_eq!(copy, record);
    assert_eq!(copy, todo(3, "walk the dog", true));
}

#[test]
fn apply_replaces_only_what_is_supplied() {
    let record = todo(4, "old", false);
    assert_eq!(changes(None, None).apply(&record), todo(4, "old", false));
    assert_eq!(changes(Some("new"), None).apply(&record), todo(4, "new", false));
    assert_eq!(changes(None, Some(true)).apply(&record), todo(4, "old", true));
    assert_eq!(changes(Some("new"), Some(true)).apply(&record), todo(4, "new", true));
    assert_eq!(record, todo(4, "old", false));
}
