use crate::clock::now_millis;
use crate::data::{Session, Todo, TodoList, TodoRequest};
use crate::error::Error;
use crate::todos::{
    capped, check_list, copy_todos, fresh_id, has_id, lemma_renamed_well_formed,
    lemma_without_well_formed, push_capped, refreshed, remove_todo, rename_todo, renamed,
    well_formed, without,
};
use std::collections::HashMap;
use vstd::prelude::*;
use vstd::std_specs::hash::group_hash_axioms;

verus! {

broadcast use group_hash_axioms;

/// The name of the item a new session's list starts with.
pub open spec fn seed_name() -> Seq<char> {
    "Delete This Todo"@
}

/// A new item named as a new session's list starts.
fn seed_todo() -> (r: Todo)
    ensures
        r.name@ == seed_name(),
        r.name@.len() > 0,
{
    proof {
        reveal_strlit("Delete This Todo");
    }
    Todo::new("Delete This Todo")
}

/// The session lists, one per session token.
pub struct TodoStore {
    lists: HashMap<u128, Vec<Todo>>,
}

impl View for TodoStore {
    type V = Map<u128, Seq<Todo>>;

    closed spec fn view(&self) -> Map<u128, Seq<Todo>> {
        self.lists@.map_values(|v: Vec<Todo>| v@)
    }
}

impl TodoStore {
    /// Every list in the store is well formed.
    pub open spec fn inv(&self) -> bool {
        forall|k: u128| #[trigger] self@.contains_key(k) ==> well_formed(self@[k])
    }

    /// A store that holds no session.
    pub fn new() -> (r: TodoStore)
        ensures
            r@ == Map::<u128, Seq<Todo>>::empty(),
            r.inv(),
    {
        let r = TodoStore { lists: HashMap::new() };
        assert(r@ =~= Map::<u128, Seq<Todo>>::empty());
        r
    }

    /// A store holding the list found for `session`, if one was found. A found
    /// list that breaks the list invariant is `StorageUnavailable`.
    pub fn holding(session: Session, found: Option<Vec<Todo>>) -> (r: Result<TodoStore, Error>)
        ensures
            match found {
                None => r matches Ok(st) && st.inv() && st@ == Map::<u128, Seq<Todo>>::empty(),
                Some(v) => if well_formed(v@) {
                    r matches Ok(st) && st.inv() && st@ == Map::<u128, Seq<Todo>>::empty().insert(
                        session.id,
                        v@,
                    )
                } else {
                    r matches Err(e) && e is StorageUnavailable
                },
            },
    {
        let mut st = TodoStore::new();
        match found {
            None => Ok(st),
            Some(v) => {
                if !check_list(&v) {
                    return Err(Error::StorageUnavailable);
                }
                proof {
                    lemma_insert_keeps_inv(st@, session.id, v@);
                }
                st.put(session.id, v);
                Ok(st)
            },
        }
    }

    /// Takes the list of session `id` out of the map.
    fn take(&mut self, id: u128) -> (r: Option<Vec<Todo>>)
        ensures
            match r {
                Some(v) => old(self)@.contains_key(id) && v@ == old(self)@[id]
                    && final(self)@ == old(self)@.remove(id),
                None => !old(self)@.contains_key(id) && final(self)@ == old(self)@,
            },
    {
        let r = self.lists.remove(&id);
        assert(self@ =~= old(self)@.remove(id));
        r
    }

    /// Puts the list of session `id` into the map.
    fn put(&mut self, id: u128, v: Vec<Todo>)
        ensures
            final(self)@ == old(self)@.insert(id, v@),
    {
        self.lists.insert(id, v);
        assert(self@ =~= old(self)@.insert(id, v@));
    }
}

/// Inserting the list of one session keeps the store's invariant when the
/// list is well formed.
proof fn lemma_insert_keeps_inv(m: Map<u128, Seq<Todo>>, id: u128, s: Seq<Todo>)
    requires
        forall|k: u128| #[trigger] m.contains_key(k) ==> well_formed(m[k]),
        well_formed(s),
    ensures
        forall|k: u128| #[trigger] m.insert(id, s).contains_key(k) ==> well_formed(
            m.insert(id, s)[k],
        ),
{
}

/// The items of a provisioned session, oldest first; an unknown session is
/// `NonexistentResourceError`.
pub fn get_todos(store: &TodoStore, session: &Session) -> (r: Result<Vec<Todo>, Error>)
    ensures
        match r {
            Ok(v) => store@.contains_key(session.id) && v@ == store@[session.id],
            Err(e) => !store@.contains_key(session.id) && e is NonexistentResourceError,
        },
{
    match store.lists.get(&session.id) {
        Some(v) => Ok(copy_todos(v)),
        None => Err(Error::NonexistentResourceError),
    }
}

/// Gives `session` a new list holding `seed` alone. A session that already
/// has a list keeps it, and the result is `StorageUnavailable`.
pub fn provision(store: &mut TodoStore, session: Session, seed: Todo) -> (r: Result<TodoList, Error>)
    requires
        old(store).inv(),
        seed.name@.len() > 0,
    ensures
        final(store).inv(),
        match r {
            Ok(list) => !old(store)@.contains_key(session.id) && list.session == session
                && list.todos@ == seq![seed] && final(store)@ == old(store)@.insert(
                session.id,
                seq![seed],
            ),
            Err(e) => old(store)@.contains_key(session.id) && e is StorageUnavailable
                && final(store)@ == old(store)@,
        },
        final(store)@.remove(session.id) == old(store)@.remove(session.id),
{
    if store.lists.contains_key(&session.id) {
        return Err(Error::StorageUnavailable);
    }
    let mut stored: Vec<Todo> = Vec::new();
    stored.push(seed.duplicate());
    let mut todos: Vec<Todo> = Vec::new();
    todos.push(seed);
    proof {
        assert(stored@ =~= seq![seed]);
        assert(todos@ =~= seq![seed]);
        lemma_insert_keeps_inv(store@, session.id, stored@);
    }
    store.put(session.id, stored);
    assert(store@.remove(session.id) =~= old(store)@.remove(session.id));
    Ok(TodoList { session, todos })
}

/// Makes a new session with a fresh token and a list holding one item named
/// "Delete This Todo". A drawn token that is already in use is
/// `StorageUnavailable`, and the store is left as it was; an empty store
/// always succeeds.
pub fn create_todo_list(store: &mut TodoStore) -> (r: Result<TodoList, Error>)
    requires
        old(store).inv(),
    ensures
        final(store).inv(),
        match r {
            Ok(list) => !old(store)@.contains_key(list.session.id) && list.todos@.len() == 1
                && list.todos@[0].name@ == seed_name() && final(store)@ == old(store)@.insert(
                list.session.id,
                list.todos@,
            ),
            Err(e) => e is StorageUnavailable && final(store)@ == old(store)@ && exists|k: u128|
                #[trigger] old(store)@.contains_key(k),
        },
{
    let seed = seed_todo();
    provision(store, Session::new(), seed)
}

/// What `get_or_create` does: a known session's list is handed back and the
/// store stays; an unknown or absent one gets a new list seeded with one
/// item, under the given token or, with none, a fresh one.
pub open spec fn get_or_create_outcome(
    before: Map<u128, Seq<Todo>>,
    identity: Option<Session>,
    r: Result<TodoList, Error>,
    after: Map<u128, Seq<Todo>>,
) -> bool {
    match r {
        Ok(list) => {
            &&& identity matches Some(s) ==> list.session == s
            &&& if before.contains_key(list.session.id) {
                &&& identity is Some
                &&& list.todos@ == before[list.session.id]
                &&& after == before
            } else {
                &&& list.todos@.len() == 1
                &&& list.todos@[0].name@ == seed_name()
                &&& after == before.insert(list.session.id, list.todos@)
            }
        },
        Err(e) => identity is None && e is StorageUnavailable && after == before && exists|
            k: u128,
        | #[trigger] before.contains_key(k),
    }
}

/// The list of the presented session, made if it does not exist yet; with no
/// session presented, a new session and its list.
pub fn get_or_create(store: &mut TodoStore, identity: Option<Session>) -> (r: Result<
    TodoList,
    Error,
>)
    requires
        old(store).inv(),
    ensures
        final(store).inv(),
        get_or_create_outcome(old(store)@, identity, r, final(store)@),
{
    match identity {
        Some(session) => match get_todos(store, &session) {
            Ok(todos) => Ok(TodoList { session, todos }),
            Err(_) => {
                let seed = seed_todo();
                provision(store, session, seed)
            },
        },
        None => create_todo_list(store),
    }
}

/// The list after a push of `todo` onto session `id`'s items.
pub open spec fn inserted(m: Map<u128, Seq<Todo>>, id: u128, todo: Todo) -> Map<
    u128,
    Seq<Todo>,
> {
    m.insert(id, capped(m[id].push(todo)))
}

/// Appends a copy of `todo` to the session's list, dropping the oldest items
/// beyond the cap. Should its identifier already be in the list, the copy
/// gets one that is not. An unknown session is `UnknownSession`.
pub fn create_todo(store: &mut TodoStore, session: &Session, todo: &Todo) -> (r: Result<(), Error>)
    requires
        old(store).inv(),
        todo.name@.len() > 0,
    ensures
        final(store).inv(),
        r is Ok <==> old(store)@.contains_key(session.id),
        r matches Err(e) ==> e is UnknownSession && final(store)@ == old(store)@,
        final(store)@.remove(session.id) == old(store)@.remove(session.id),
        r is Ok && !has_id(old(store)@[session.id], todo.id) ==> final(store)@ == inserted(
            old(store)@,
            session.id,
            *todo,
        ),
        r is Ok ==> exists|id: u128|
            {
                &&& !has_id(old(store)@[session.id], id)
                &&& !has_id(old(store)@[session.id], todo.id) ==> id == todo.id
                &&& final(store)@ == #[trigger] inserted(
                    old(store)@,
                    session.id,
                    Todo { id, name: todo.name, timestamp: todo.timestamp },
                )
            },
{
    match store.take(session.id) {
        None => Err(Error::UnknownSession),
        Some(mut todos) => {
            let id = fresh_id(&todos, todo.id);
            let item = Todo { id, name: todo.name.clone(), timestamp: todo.timestamp };
            let ghost t = item;
            push_capped(&mut todos, item);
            proof {
                lemma_insert_keeps_inv(old(store)@, session.id, todos@);
                assert(old(store)@.remove(session.id).insert(session.id, todos@) =~= inserted(
                    old(store)@,
                    session.id,
                    t,
                ));
                assert(old(store)@.remove(session.id).insert(session.id, todos@).remove(session.id)
                    =~= old(store)@.remove(session.id));
            }
            store.put(session.id, todos);
            Ok(())
        },
    }
}

/// Renames the item `item_id` of the session's list to `name` and restamps
/// it for the clock reading `now`. An unknown session or item is `NonexistentResourceError`, and the
/// store is left as it was.
pub fn rename_in(store: &mut TodoStore, session: &Session, item_id: u128, name: String, now: i64) -> (r:
    Result<(), Error>)
    requires
        old(store).inv(),
        name@.len() > 0,
    ensures
        final(store).inv(),
        r is Ok <==> old(store)@.contains_key(session.id) && has_id(
            old(store)@[session.id],
            item_id,
        ),
        r matches Err(e) ==> e is NonexistentResourceError && final(store)@ == old(store)@,
        final(store)@.remove(session.id) == old(store)@.remove(session.id),
        r is Ok ==> final(store)@ == old(store)@.insert(
            session.id,
            renamed(old(store)@[session.id], item_id, name, now),
        ),
{
    match store.take(session.id) {
        None => Err(Error::NonexistentResourceError),
        Some(mut todos) => {
            let ghost before = todos@;
            let r = rename_todo(&mut todos, item_id, name, now);
            proof {
                if r is Ok {
                    lemma_renamed_well_formed(before, item_id, name, now);
                }
                lemma_insert_keeps_inv(old(store)@, session.id, todos@);
                assert(old(store)@.remove(session.id).insert(session.id, before) =~= old(store)@);
                assert(old(store)@.remove(session.id).insert(session.id, todos@).remove(session.id)
                    =~= old(store)@.remove(session.id));
            }
            store.put(session.id, todos);
            r
        },
    }
}

/// Renames the item `todo_id` of the session's list to the requested name
/// and restamps it from the current time; its stamp moves forward. An unknown session or item is
/// `NonexistentResourceError`, and the store is left as it was.
pub fn update_todo(store: &mut TodoStore, session: &Session, todo_id: &u128, update: &TodoRequest) -> (r:
    Result<(), Error>)
    requires
        old(store).inv(),
        update.name@.len() > 0,
    ensures
        final(store).inv(),
        r is Ok <==> old(store)@.contains_key(session.id) && has_id(
            old(store)@[session.id],
            *todo_id,
        ),
        r matches Err(e) ==> e is NonexistentResourceError && final(store)@ == old(store)@,
        final(store)@.remove(session.id) == old(store)@.remove(session.id),
        r is Ok ==> exists|now: i64|
            final(store)@ == old(store)@.insert(
                session.id,
                #[trigger] renamed(old(store)@[session.id], *todo_id, update.name, now),
            ),
        r is Ok ==> forall|i: int|
            0 <= i < old(store)@[session.id].len() && old(store)@[session.id][i].id == *todo_id
                && old(store)@[session.id][i].timestamp < i64::MAX ==> {
                &&& #[trigger] final(store)@[session.id][i].id == *todo_id
                &&& final(store)@[session.id][i].name == update.name
                &&& final(store)@[session.id][i].timestamp > old(store)@[session.id][i].timestamp
            },
{
    let now = now_millis();
    rename_in(store, session, *todo_id, update.name.clone(), now)
}

/// Removes the item `todo_id` from the session's list. An unknown session or
/// item is `NonexistentResourceError`, and the store is left as it was.
pub fn delete_todo(store: &mut TodoStore, session: &Session, todo_id: &u128) -> (r: Result<(), Error>)
    requires
        old(store).inv(),
    ensures
        final(store).inv(),
        r is Ok <==> old(store)@.contains_key(session.id) && has_id(
            old(store)@[session.id],
            *todo_id,
        ),
        r matches Err(e) ==> e is NonexistentResourceError && final(store)@ == old(store)@,
        final(store)@.remove(session.id) == old(store)@.remove(session.id),
        r is Ok ==> final(store)@ == old(store)@.insert(
            session.id,
            without(old(store)@[session.id], *todo_id),
        ),
{
    match store.take(session.id) {
        None => Err(Error::NonexistentResourceError),
        Some(mut todos) => {
            let ghost before = todos@;
            let r = remove_todo(&mut todos, *todo_id);
            proof {
                if r is Ok {
                    lemma_without_well_formed(before, *todo_id);
                }
                lemma_insert_keeps_inv(old(store)@, session.id, todos@);
                assert(old(store)@.remove(session.id).insert(session.id, before) =~= old(store)@);
                assert(old(store)@.remove(session.id).insert(session.id, todos@).remove(session.id)
                    =~= old(store)@.remove(session.id));
            }
            store.put(session.id, todos);
            r
        },
    }
}

/// Empties the session's list; the session stays provisioned. An unknown
/// session is `NonexistentResourceError`.
pub fn delete_all_todos(store: &mut TodoStore, session: &Session) -> (r: Result<(), Error>)
    requires
        old(store).inv(),
    ensures
        final(store).inv(),
        r is Ok <==> old(store)@.contains_key(session.id),
        r matches Err(e) ==> e is NonexistentResourceError && final(store)@ == old(store)@,
        final(store)@.remove(session.id) == old(store)@.remove(session.id),
        r is Ok ==> final(store)@ == old(store)@.insert(session.id, Seq::<Todo>::empty()),
{
    match store.take(session.id) {
        None => Err(Error::NonexistentResourceError),
        Some(mut todos) => {
            todos.clear();
            proof {
                lemma_insert_keeps_inv(old(store)@, session.id, todos@);
                assert(old(store)@.remove(session.id).insert(session.id, todos@).remove(session.id)
                    =~= old(store)@.remove(session.id));
            }
            store.put(session.id, todos);
            Ok(())
        },
    }
}

} // verus!
