use todo_service::service::{greeting, Request, Response};
use todo_service::store::Store;
use todo_service::todo::{Todo, UpdateTodo};

fn record(id: u32, title: &str, completed: bool) -> Todo {
    Todo { id, title: title.to_string(), completed }
}

fn create(title: &str) -> Request {
    Request::Create { title: title.to_string() }
}

fn update(id: u32, title: Option<&str>, completed: Option<bool>) -> Request {
    Request::Update { id, changes: UpdateTodo { title: title.map(|t| t.to_string()), completed } }
}

fn status_of(answer: &Option<Response>) -> u16 {
    answer.as_ref().unwrap().status()
}

#[test]
fn post_creates_the_first_record() {
    let mut store = Store::new();
    let answer = store.handle(create("buy milk"));
    assert_eq!(status_of(&answer), 200);
    assert_eq!(answer, Some(Response::Todo(record(1, "buy milk", false))));
}

#[test]
fn get_after_post_gives_the_record() {
    let mut store = Store::new();
    store.handle(create("buy milk"));
    let answer = store.handle(Request::Get { id: 1 });
    assert_eq!(status_of(&answer), 200);
    assert_eq!(answer, Some(Response::Todo(record(1, "buy milk", false))));
}

#[test]
fn put_completed_keeps_the_title() {
    let mut store = Store::new();
    store.handle(create("buy milk"));
    let answer = store.handle(update(1, None, Some(true)));
    assert_eq!(status_of(&answer), 200);
    assert_eq!(answer, Some(Response::Todo(record(1, "buy milk", true))));
    assert_eq!(
        store.handle(Request::Get { id: 1 }),
        Some(Response::Todo(record(1, "buy milk", true)))
    );
}

#[test]
fn put_of_an_empty_object_gives_the_unchanged_record() {
    let mut store = Store::new();
    store.handle(create("buy milk"));
    let answer = store.handle(update(1, None, None));
    assert_eq!(status_of(&answer), 200);
    assert_eq!(answer, Some(Response::Todo(record(1, "buy milk", false))));
}

#[test]
fn delete_then_get_is_not_found() {
    let mut store = Store::new();
    store.handle(create("buy milk"));
    let deleted = store.handle(Request::Delete { id: 1 });
    assert_eq!(status_of(&deleted), 204);
    assert_eq!(deleted, Some(Response::NoContent));
    let answer = store.handle(Request::Get { id: 1 });
    assert_eq!(status_of(&answer), 404);
    assert_eq!(answer, Some(Response::NotFound));
    assert_eq!(store.handle(update(1, Some("x"), None)), Some(Response::NotFound));
    assert_eq!(store.handle(Request::Delete { id: 1 }), Some(Response::NotFound));
}

#[test]
fn get_of_999_on_an_empty_store_is_not_found() {
    let mut store = Store::new();
    let answer = store.handle(Request::Get { id: 999 });
    assert_eq!(status_of(&answer), 404);
    assert_eq!(answer, Some(Response::NotFound));
}

#[test]
fn list_on_an_empty_store_is_empty() {
    let mut store = Store::new();
    let answer = store.handle(Request::List);
    assert_eq!(status_of(&answer), 200);
    assert_eq!(answer, Some(Response::Todos(vec![])));
}

#[test]
fn list_gives_every_record_oldest_first() {
    let mut store = Store::new();
    store.handle(create("a"));
    store.handle(create("b"));
    store.handle(update(1, None, Some(true)));
    assert_eq!(
        store.handle(Request::List),
        Some(Response::Todos(vec![record(1, "a", true), record(2, "b", false)]))
    );
}

#[test]
fn update_and_delete_of_an_unknown_identifier_are_not_found() {
    let mut store = Store::new();
    store.handle(create("a"));
    let updated = store.handle(update(5, Some("x"), Some(true)));
    assert_eq!(status_of(&updated), 404);
    assert_eq!(updated, Some(Response::NotFound));
    let deleted = store.handle(Request::Delete { id: 5 });
    assert_eq!(status_of(&deleted), 404);
    assert_eq!(deleted, Some(Response::NotFound));
    assert_eq!(store.list(), vec![record(1, "a", false)]);
}

#[test]
fn reading_requests_leave_the_store_as_it_was() {
    let mut store = Store::new();
    store.handle(create("a"));
    store.handle(create("b"));
    let before = store.list();
    store.handle(Request::List);
    store.handle(Request::Get { id: 1 });
    store.handle(Request::Get { id: 9 });
    assert_eq!(store.list(), before);
    assert_eq!(store.handle(create("c")), Some(Response::Todo(record(3, "c", false))));
}

#[test]
fn create_after_delete_takes_a_fresh_identifier() {
    let mut store = Store::new();
    store.handle(create("a"));
    store.handle(Request::Delete { id: 1 });
    assert_eq!(store.handle(create("b")), Some(Response::Todo(record(2, "b", false))));
    assert_eq!(store.handle(Request::Get { id: 1 }), Some(Response::NotFound));
}

#[test]
fn each_answer_has_its_status() {
    assert_eq!(Response::Todos(vec![]).status(), 200);
    assert_eq!(Response::Todos(vec![record(1, "a", false)]).status(), 200);
    assert_eq!(Response::Todo(record(1, "a", false)).status(), 200);
    assert_eq!(Response::NoContent.status(), 204);
    assert_eq!(Response::NotFound.status(), 404);
}

#[test]
fn greeting_is_the_literal_text() {
    assert_eq!(greeting(), "Hello, world!");
}
