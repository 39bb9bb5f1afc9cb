use warp_crud::data::{Session, Todo, TodoRequest};
use warp_crud::db::{
    create_todo, delete_all_todos, delete_todo, get_or_create, get_todos, update_todo, TodoStore,
};

fn new_session(store: &mut TodoStore) -> Session {
    get_or_create(store, None).unwrap().session
}

#[test]
fn test_getting_todos() {
    let mut store = TodoStore::new();
    let list = get_or_create(&mut store, None).unwrap();
    let body = list.todos;
    assert_eq!(body.len(), 1);
    assert_eq!(body[0].name, "Delete This Todo");
}

#[test]
fn test_creating_todo() {
    let mut store = TodoStore::new();
    let session = new_session(&mut store);
    let new_todo = TodoRequest { name: "Run To The Hills!".to_owned() };
    let todo = Todo::from_request(new_todo);
    assert!(create_todo(&mut store, &session, &todo).is_ok());
    let body = get_todos(&store, &session).unwrap();
    assert_eq!(body.len(), 2);
    assert_eq!(body[1].name, "Run To The Hills!");
}

#[test]
fn test_updating_todo() {
    let mut store = TodoStore::new();
    let list = get_or_create(&mut store, None).unwrap();
    let session = list.session;
    let todo_id = list.todos[0].id;
    let new_todo = TodoRequest { name: "Run To The Hills!".to_owned() };
    assert!(update_todo(&mut store, &session, &todo_id, &new_todo).is_ok());
    let body = get_todos(&store, &session).unwrap();
    assert_eq!(body.len(), 1);
    assert_eq!(body[0].name, "Run To The Hills!");
}

#[test]
fn test_deleting_todo() {
    let mut store = TodoStore::new();
    let list = get_or_create(&mut store, None).unwrap();
    let session = list.session;
    let todo_id = list.todos[0].id;
    assert!(delete_todo(&mut store, &session, &todo_id).is_ok());
    let body = get_todos(&store, &session).unwrap();
    assert_eq!(body.len(), 0);
}

#[test]
fn delete_all_then_list_succeeds() {
    let mut store = TodoStore::new();
    let session = new_session(&mut store);
    assert!(delete_all_todos(&mut store, &session).is_ok());
    assert_eq!(get_todos(&store, &session).unwrap().len(), 0);
    // emptying an empty list is no error
    assert!(delete_all_todos(&mut store, &session).is_ok());
    assert_eq!(get_todos(&store, &session).unwrap().len(), 0);
}
