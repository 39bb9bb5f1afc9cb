use warp_crud::data::{Session, Todo, TodoRequest};
use warp_crud::db::{
    create_todo, create_todo_list, delete_all_todos, delete_todo, get_or_create, get_todos,
    provision, rename_in, update_todo, TodoStore,
};
use warp_crud::error::Error;
use warp_crud::todos::{
    contains_id, copy_todos, fresh_id, push_capped, remove_todo, rename_todo, TODO_CAP,
};

fn item(id: u128, name: &str, timestamp: i64) -> Todo {
    Todo { id, name: name.to_owned(), timestamp }
}

fn names(todos: &[Todo]) -> Vec<String> {
    todos.iter().map(|t| t.name.clone()).collect()
}

#[test]
fn scenario_seed_cap_and_clear() {
    let mut store = TodoStore::new();
    let list = get_or_create(&mut store, None).unwrap();
    let session = list.session;
    assert_eq!(names(&list.todos), vec!["Delete This Todo".to_owned()]);
    let mut inserted = Vec::new();
    for k in 0..10 {
        let name = format!("item {}", k);
        create_todo(&mut store, &session, &Todo::new(&name)).unwrap();
        inserted.push(name);
    }
    let todos = get_todos(&store, &session).unwrap();
    assert_eq!(todos.len(), 10);
    assert_eq!(names(&todos), inserted);
    assert!(delete_all_todos(&mut store, &session).is_ok());
    let after = get_todos(&store, &session).unwrap();
    assert_eq!(after.len(), 0);
}

#[test]
fn cap_grows_until_full() {
    let mut store = TodoStore::new();
    let session = Session::from_id(7);
    provision(&mut store, session, item(1, "seed", 0)).unwrap();
    for k in 0..3u128 {
        create_todo(&mut store, &session, &item(100 + k, "x", 0)).unwrap();
    }
    assert_eq!(get_todos(&store, &session).unwrap().len(), 4);
    for k in 3..20u128 {
        create_todo(&mut store, &session, &item(100 + k, "x", 0)).unwrap();
    }
    let ids: Vec<u128> = get_todos(&store, &session).unwrap().iter().map(|t| t.id).collect();
    assert_eq!(ids, (110..120u128).collect::<Vec<u128>>());
}

#[test]
fn provisioning_is_idempotent() {
    let mut store = TodoStore::new();
    let session = Session::from_id(42);
    let first = get_or_create(&mut store, Some(session)).unwrap();
    create_todo(&mut store, &session, &item(5, "keep me", 3)).unwrap();
    let second = get_or_create(&mut store, Some(session)).unwrap();
    let third = get_or_create(&mut store, Some(session)).unwrap();
    assert_eq!(first.session, session);
    assert_eq!(second.todos.len(), 2);
    assert_eq!(second.todos, third.todos);
    assert_eq!(third.todos[1].name, "keep me");
}

#[test]
fn presented_unknown_session_is_provisioned_under_its_token() {
    let mut store = TodoStore::new();
    let session = Session::from_id(0xabc);
    let list = get_or_create(&mut store, Some(session)).unwrap();
    assert_eq!(list.session.id(), 0xabc);
    assert_eq!(names(&list.todos), vec!["Delete This Todo".to_owned()]);
    assert_eq!(get_todos(&store, &session).unwrap().len(), 1);
}

#[test]
fn sessions_are_isolated() {
    let mut store = TodoStore::new();
    let a = create_todo_list(&mut store).unwrap().session;
    let b = create_todo_list(&mut store).unwrap().session;
    assert_ne!(a, b);
    let before = get_todos(&store, &b).unwrap();
    for k in 0..12u128 {
        create_todo(&mut store, &a, &item(k + 1000, "a", 0)).unwrap();
    }
    update_todo(&mut store, &a, &1011, &TodoRequest { name: "renamed".to_owned() }).unwrap();
    assert_eq!(get_todos(&store, &b).unwrap(), before);
}

#[test]
fn update_keeps_identity_and_position() {
    let mut store = TodoStore::new();
    let session = Session::from_id(9);
    provision(&mut store, session, item(1, "first", 100)).unwrap();
    create_todo(&mut store, &session, &item(2, "second", 100)).unwrap();
    rename_in(&mut store, &session, 1, "new name".to_owned(), 250).unwrap();
    let todos = get_todos(&store, &session).unwrap();
    assert_eq!(todos[0], item(1, "new name", 250));
    assert_eq!(todos[1], item(2, "second", 100));
}

#[test]
fn update_stamps_current_time() {
    let mut store = TodoStore::new();
    let session = Session::from_id(9);
    provision(&mut store, session, item(1, "first", 0)).unwrap();
    update_todo(&mut store, &session, &1, &TodoRequest { name: "later".to_owned() }).unwrap();
    let todos = get_todos(&store, &session).unwrap();
    assert_eq!(todos[0].id, 1);
    assert_eq!(todos[0].name, "later");
    assert!(todos[0].timestamp > 0);
}

#[test]
fn delete_removes_exactly_one() {
    let mut store = TodoStore::new();
    let session = Session::from_id(3);
    provision(&mut store, session, item(1, "one", 0)).unwrap();
    create_todo(&mut store, &session, &item(2, "two", 0)).unwrap();
    create_todo(&mut store, &session, &item(3, "three", 0)).unwrap();
    delete_todo(&mut store, &session, &2).unwrap();
    let ids: Vec<u128> = get_todos(&store, &session).unwrap().iter().map(|t| t.id).collect();
    assert_eq!(ids, vec![1, 3]);
}

#[test]
fn delete_of_missing_item_changes_nothing() {
    let mut store = TodoStore::new();
    let session = Session::from_id(3);
    provision(&mut store, session, item(1, "one", 0)).unwrap();
    let r = delete_todo(&mut store, &session, &77);
    assert!(matches!(r, Err(Error::NonexistentResourceError)));
    assert_eq!(get_todos(&store, &session).unwrap(), vec![item(1, "one", 0)]);
}

#[test]
fn unknown_session_errors() {
    let mut store = TodoStore::new();
    let ghost_session = Session::from_id(1234);
    let todo = item(1, "x", 0);
    assert!(matches!(create_todo(&mut store, &ghost_session, &todo), Err(Error::UnknownSession)));
    let req = TodoRequest { name: "y".to_owned() };
    assert!(matches!(
        update_todo(&mut store, &ghost_session, &1, &req),
        Err(Error::NonexistentResourceError)
    ));
    assert!(matches!(
        delete_todo(&mut store, &ghost_session, &1),
        Err(Error::NonexistentResourceError)
    ));
    assert!(matches!(
        delete_all_todos(&mut store, &ghost_session),
        Err(Error::NonexistentResourceError)
    ));
    assert!(matches!(get_todos(&store, &ghost_session), Err(Error::NonexistentResourceError)));
}

#[test]
fn update_of_missing_item_is_nonexistent() {
    let mut store = TodoStore::new();
    let session = Session::from_id(5);
    provision(&mut store, session, item(1, "one", 0)).unwrap();
    let req = TodoRequest { name: "y".to_owned() };
    assert!(matches!(
        update_todo(&mut store, &session, &2, &req),
        Err(Error::NonexistentResourceError)
    ));
    assert_eq!(get_todos(&store, &session).unwrap(), vec![item(1, "one", 0)]);
}

#[test]
fn provisioning_a_taken_token_fails() {
    let mut store = TodoStore::new();
    let session = Session::from_id(5);
    provision(&mut store, session, item(1, "one", 0)).unwrap();
    let r = provision(&mut store, session, item(2, "two", 0));
    assert!(matches!(r, Err(Error::StorageUnavailable)));
    assert_eq!(get_todos(&store, &session).unwrap(), vec![item(1, "one", 0)]);
}

#[test]
fn colliding_item_id_gets_a_fresh_one() {
    let mut store = TodoStore::new();
    let session = Session::from_id(5);
    provision(&mut store, session, item(1, "one", 0)).unwrap();
    create_todo(&mut store, &session, &item(1, "again", 0)).unwrap();
    let todos = get_todos(&store, &session).unwrap();
    assert_eq!(todos.len(), 2);
    assert_eq!(todos[1].name, "again");
    assert_ne!(todos[1].id, 1);
}

#[test]
fn fresh_id_avoids_every_item() {
    let todos: Vec<Todo> = (0..10u128).map(|k| item(k, "x", 0)).collect();
    assert_eq!(fresh_id(&todos, 99), 99);
    for c in 0..10u128 {
        let r = fresh_id(&todos, c);
        assert!(!contains_id(&todos, r));
    }
}

#[test]
fn push_capped_drops_oldest() {
    let mut todos: Vec<Todo> = (0..10u128).map(|k| item(k, "x", 0)).collect();
    push_capped(&mut todos, item(10, "y", 0));
    assert_eq!(todos.len(), TODO_CAP);
    assert_eq!(todos[0].id, 1);
    assert_eq!(todos[9], item(10, "y", 0));
}

#[test]
fn rename_and_remove_on_lists() {
    let mut todos = vec![item(1, "a", 0), item(2, "b", 0)];
    assert!(matches!(
        rename_todo(&mut todos, 3, "c".to_owned(), 1),
        Err(Error::NonexistentResourceError)
    ));
    rename_todo(&mut todos, 2, "c".to_owned(), 9).unwrap();
    assert_eq!(todos, vec![item(1, "a", 0), item(2, "c", 9)]);
    assert!(matches!(remove_todo(&mut todos, 3), Err(Error::NonexistentResourceError)));
    remove_todo(&mut todos, 1).unwrap();
    assert_eq!(copy_todos(&todos), vec![item(2, "c", 9)]);
}

#[test]
fn new_todos_get_distinct_ids() {
    let a = Todo::new("a");
    let b = Todo::new("a");
    assert_eq!(a.name, "a");
    assert_ne!(a.id, b.id);
    assert!(a.timestamp > 1_500_000_000_000);
}
