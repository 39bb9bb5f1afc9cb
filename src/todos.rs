use crate::data::Todo;
use crate::error::Error;
use vstd::prelude::*;

verus! {

/// The most items a session's list holds.
pub const TODO_CAP: usize = 10;

/// What is left of a list after trimming it to the cap: its newest items,
/// oldest first.
pub open spec fn capped(s: Seq<Todo>) -> Seq<Todo> {
    if s.len() > TODO_CAP {
        s.subrange(s.len() - TODO_CAP, s.len() as int)
    } else {
        s
    }
}

/// Whether some item of `s` carries the identifier `id`.
pub open spec fn has_id(s: Seq<Todo>, id: u128) -> bool {
    exists|i: int| 0 <= i < s.len() && #[trigger] s[i].id == id
}

/// No two items of `s` share an identifier.
pub open spec fn ids_unique(s: Seq<Todo>) -> bool {
    forall|i: int, j: int|
        0 <= i < s.len() && 0 <= j < s.len() && i != j ==> #[trigger] s[i].id != #[trigger] s[j].id
}

/// The invariant of a session's list: within the cap, identifiers unique,
/// no empty name.
pub open spec fn well_formed(s: Seq<Todo>) -> bool {
    &&& s.len() <= TODO_CAP
    &&& ids_unique(s)
    &&& forall|i: int| 0 <= i < s.len() ==> (#[trigger] s[i]).name@.len() > 0
}

/// The stamp of an item renamed when the clock reads `now`: the reading when
/// it is later than the item's stamp, else one past the item's stamp, so
/// that a rename always moves the stamp forward (but at the largest stamp
/// there is).
pub open spec fn refreshed(stamp: i64, now: i64) -> i64 {
    if now > stamp {
        now
    } else if stamp < i64::MAX {
        (stamp + 1) as i64
    } else {
        stamp
    }
}

/// The list with each item carrying `id` renamed to `name` and restamped
/// for the clock reading `now`; identifiers and positions stay.
pub open spec fn renamed(s: Seq<Todo>, id: u128, name: String, now: i64) -> Seq<Todo> {
    s.map_values(
        |t: Todo|
            if t.id == id {
                Todo { id: t.id, name, timestamp: refreshed(t.timestamp, now) }
            } else {
                t
            },
    )
}

/// The stamp for an item stamped `stamp` and renamed when the clock reads
/// `now`.
pub fn refresh_stamp(stamp: i64, now: i64) -> (r: i64)
    ensures
        r == refreshed(stamp, now),
{
    if now > stamp {
        now
    } else if stamp < i64::MAX {
        stamp + 1
    } else {
        stamp
    }
}

/// The list without the items carrying `id`, the others in their order.
pub open spec fn without(s: Seq<Todo>, id: u128) -> Seq<Todo> {
    s.filter(|t: Todo| t.id != id)
}

/// Whether some item of `todos` carries `id`.
pub fn contains_id(todos: &Vec<Todo>, id: u128) -> (r: bool)
    ensures
        r == has_id(todos@, id),
{
    let mut i: usize = 0;
    while i < todos.len()
        invariant
            i <= todos@.len(),
            forall|j: int| 0 <= j < i ==> todos@[j].id != id,
        decreases todos.len() - i,
    {
        if todos[i].id == id {
            return true;
        }
        i += 1;
    }
    false
}

proof fn lemma_flip_keeps_other_bits(r: u128, k: u128, j: u128)
    requires
        k < 128,
        j < 128,
        j != k,
    ensures
        (r ^ (1u128 << k)) & (1u128 << j) == r & (1u128 << j),
{
    assert((r ^ (1u128 << k)) & (1u128 << j) == r & (1u128 << j)) by (bit_vector)
        requires
            k < 128,
            j < 128,
            j != k,
    ;
}

proof fn lemma_flip_changes_bit(r: u128, x: u128, k: u128)
    requires
        k < 128,
        r & (1u128 << k) == x & (1u128 << k),
    ensures
        (r ^ (1u128 << k)) & (1u128 << k) != x & (1u128 << k),
{
    assert((r ^ (1u128 << k)) & (1u128 << k) != x & (1u128 << k)) by (bit_vector)
        requires
            k < 128,
            r & (1u128 << k) == x & (1u128 << k),
    ;
}

/// An identifier that no item of `todos` carries: `candidate` itself when it
/// is free; otherwise `candidate` with bit `k` set opposite to bit `k` of the
/// `k`-th item's identifier, for each position `k`.
pub fn fresh_id(todos: &Vec<Todo>, candidate: u128) -> (r: u128)
    requires
        todos@.len() <= 128,
    ensures
        !has_id(todos@, r),
        !has_id(todos@, candidate) ==> r == candidate,
{
    if !contains_id(todos, candidate) {
        return candidate;
    }
    let mut r: u128 = candidate;
    let mut k: usize = 0;
    while k < todos.len()
        invariant
            k <= todos@.len() <= 128,
            forall|j: int|
                0 <= j < k ==> #[trigger] (r & (1u128 << (j as u128))) != todos@[j].id & (1u128
                    << (j as u128)),
        decreases todos.len() - k,
    {
        let b: u128 = 1u128 << (k as u128);
        let ghost r0 = r;
        if (r & b) == (todos[k].id & b) {
            r = r ^ b;
            proof {
                lemma_flip_changes_bit(r0, todos@[k as int].id, k as u128);
                assert forall|j: int| 0 <= j < k implies #[trigger] (r & (1u128 << (j as u128)))
                    != todos@[j].id & (1u128 << (j as u128)) by {
                    lemma_flip_keeps_other_bits(r0, k as u128, j as u128);
                }
            }
        }
        k += 1;
    }
    proof {
        assert forall|i: int| 0 <= i < todos@.len() implies #[trigger] todos@[i].id != r by {
            assert((r & (1u128 << (i as u128))) != todos@[i].id & (1u128 << (i as u128)));
        }
    }
    r
}

/// Whether a list meets the invariant of a session's list.
pub fn check_list(todos: &Vec<Todo>) -> (r: bool)
    ensures
        r == well_formed(todos@),
{
    if todos.len() > TODO_CAP {
        return false;
    }
    let mut i: usize = 0;
    while i < todos.len()
        invariant
            i <= todos@.len() <= TODO_CAP,
            forall|a: int| 0 <= a < i ==> (#[trigger] todos@[a]).name@.len() > 0,
            forall|a: int, b: int|
                0 <= a < i && 0 <= b < todos@.len() && a != b ==> #[trigger] todos@[a].id
                    != #[trigger] todos@[b].id,
        decreases todos.len() - i,
    {
        if todos[i].name.as_str().is_empty() {
            return false;
        }
        let mut j: usize = 0;
        while j < todos.len()
            invariant
                i < todos@.len() <= TODO_CAP,
                j <= todos@.len(),
                forall|b: int| 0 <= b < j && b != i ==> todos@[i as int].id != #[trigger] todos@[b].id,
            decreases todos.len() - j,
        {
            if j != i && todos[j].id == todos[i].id {
                return false;
            }
            j += 1;
        }
        i += 1;
    }
    true
}

/// Appends `todo` and trims the list back to the cap by dropping its oldest
/// items.
pub fn push_capped(todos: &mut Vec<Todo>, todo: Todo)
    requires
        old(todos)@.len() <= TODO_CAP,
    ensures
        final(todos)@ == capped(old(todos)@.push(todo)),
        well_formed(old(todos)@) && !has_id(old(todos)@, todo.id) && todo.name@.len() > 0
            ==> well_formed(final(todos)@),
{
    let ghost t = todo;
    let ghost s = old(todos)@.push(t);
    todos.push(todo);
    if todos.len() > TODO_CAP {
        todos.remove(0);
        assert(todos@ =~= capped(s));
    }
    proof {
        if well_formed(old(todos)@) && !has_id(old(todos)@, t.id) && t.name@.len() > 0 {
            let n = old(todos)@.len();
            assert(ids_unique(s)) by {
                assert forall|i: int, j: int|
                    0 <= i < s.len() && 0 <= j < s.len() && i != j implies #[trigger] s[i].id
                    != #[trigger] s[j].id by {
                    if i == n {
                        assert(old(todos)@[j].id != t.id);
                    } else if j == n {
                        assert(old(todos)@[i].id != t.id);
                    }
                }
            }
            let d = s.len() - todos@.len();
            assert(forall|i: int| 0 <= i < todos@.len() ==> todos@[i] == s[i + d]);
        }
    }
}

/// Renames the item carrying `id` and restamps it for the clock reading
/// `now`; with no such item the list is left as it was and the result is
/// `NonexistentResourceError`.
pub fn rename_todo(todos: &mut Vec<Todo>, id: u128, name: String, now: i64) -> (r: Result<(), Error>)
    ensures
        r is Ok <==> has_id(old(todos)@, id),
        r is Ok ==> final(todos)@ == renamed(old(todos)@, id, name, now),
        r matches Err(e) ==> e is NonexistentResourceError && final(todos)@ == old(todos)@,
{
    if !contains_id(todos, id) {
        return Err(Error::NonexistentResourceError);
    }
    let ghost s = todos@;
    let mut out: Vec<Todo> = Vec::new();
    let mut i: usize = 0;
    while i < todos.len()
        invariant
            todos@ == s,
            i <= s.len(),
            out@ =~= renamed(s, id, name, now).subrange(0, i as int),
        decreases todos.len() - i,
    {
        if todos[i].id == id {
            out.push(
                Todo {
                    id: todos[i].id,
                    name: name.clone(),
                    timestamp: refresh_stamp(todos[i].timestamp, now),
                },
            );
        } else {
            out.push(todos[i].duplicate());
        }
        i += 1;
    }
    assert(out@ =~= renamed(s, id, name, now));
    *todos = out;
    Ok(())
}

/// Removes the item carrying `id`; with no such item the list is left as it
/// was and the result is `NonexistentResourceError`.
pub fn remove_todo(todos: &mut Vec<Todo>, id: u128) -> (r: Result<(), Error>)
    ensures
        r is Ok <==> has_id(old(todos)@, id),
        r is Ok ==> final(todos)@ == without(old(todos)@, id),
        r matches Err(e) ==> e is NonexistentResourceError && final(todos)@ == old(todos)@,
{
    if !contains_id(todos, id) {
        return Err(Error::NonexistentResourceError);
    }
    let ghost s = todos@;
    let mut out: Vec<Todo> = Vec::new();
    let mut i: usize = 0;
    while i < todos.len()
        invariant
            todos@ == s,
            i <= s.len(),
            out@ == without(s.subrange(0, i as int), id),
        decreases todos.len() - i,
    {
        let ghost p = s.subrange(0, i + 1);
        assert(p.drop_last() =~= s.subrange(0, i as int));
        assert(p.last() == s[i as int]);
        if todos[i].id != id {
            out.push(todos[i].duplicate());
        }
        proof {
            reveal(Seq::filter);
        }
        assert(out@ =~= without(p, id));
        i += 1;
    }
    assert(s.subrange(0, s.len() as int) =~= s);
    *todos = out;
    Ok(())
}

/// A copy of the list, equal to it item by item.
pub fn copy_todos(todos: &Vec<Todo>) -> (r: Vec<Todo>)
    ensures
        r@ == todos@,
{
    let mut out: Vec<Todo> = Vec::new();
    let mut i: usize = 0;
    while i < todos.len()
        invariant
            i <= todos@.len(),
            out@ =~= todos@.subrange(0, i as int),
        decreases todos.len() - i,
    {
        out.push(todos[i].duplicate());
        i += 1;
    }
    assert(out@ =~= todos@);
    out
}

/// Renaming keeps a list well formed when the new name is not empty.
pub proof fn lemma_renamed_well_formed(s: Seq<Todo>, id: u128, name: String, now: i64)
    requires
        well_formed(s),
        name@.len() > 0,
    ensures
        well_formed(renamed(s, id, name, now)),
{
    let r = renamed(s, id, name, now);
    assert forall|i: int, j: int|
        0 <= i < r.len() && 0 <= j < r.len() && i != j implies #[trigger] r[i].id
        != #[trigger] r[j].id by {
        assert(r[i].id == s[i].id && r[j].id == s[j].id);
    }
}

/// The items kept by `without` all come from the list, in its order.
proof fn lemma_without_items(s: Seq<Todo>, id: u128)
    ensures
        without(s, id).len() <= s.len(),
        forall|k: int| 0 <= k < without(s, id).len() ==> (#[trigger] without(s, id)[k]).id != id
            && s.contains(without(s, id)[k]),
    decreases s.len(),
{
    reveal(Seq::filter);
    if s.len() > 0 {
        lemma_without_items(s.drop_last(), id);
        let w = without(s.drop_last(), id);
        assert forall|k: int| 0 <= k < without(s, id).len() implies (#[trigger] without(
            s,
            id,
        )[k]).id != id && s.contains(without(s, id)[k]) by {
            if k < w.len() {
                let t = w[k];
                let x = choose|x: int| 0 <= x < s.drop_last().len() && s.drop_last()[x] == t;
                assert(s[x] == t);
            } else {
                assert(s[s.len() - 1] == s.last());
            }
        }
    }
}

/// Removing by identifier keeps a list well formed.
pub proof fn lemma_without_well_formed(s: Seq<Todo>, id: u128)
    requires
        well_formed(s),
    ensures
        well_formed(without(s, id)),
    decreases s.len(),
{
    reveal(Seq::filter);
    if s.len() > 0 {
        let d = s.drop_last();
        assert(well_formed(d)) by {
            assert forall|i: int, j: int|
                0 <= i < d.len() && 0 <= j < d.len() && i != j implies #[trigger] d[i].id
                != #[trigger] d[j].id by {
                assert(s[i].id != s[j].id);
            }
            assert forall|i: int| 0 <= i < d.len() implies (#[trigger] d[i]).name@.len() > 0 by {
                assert(s[i] == d[i]);
            }
        }
        lemma_without_well_formed(d, id);
        lemma_without_items(d, id);
        let w = without(d, id);
        if s.last().id != id {
            let r = w.push(s.last());
            assert(r == without(s, id));
            assert forall|i: int, j: int|
                0 <= i < r.len() && 0 <= j < r.len() && i != j implies #[trigger] r[i].id
                != #[trigger] r[j].id by {
                if i == w.len() || j == w.len() {
                    let k = if i == w.len() { j } else { i };
                    assert(d.contains(w[k]));
                    let x = choose|x: int| 0 <= x < d.len() && d[x] == w[k];
                    assert(s[x] == d[x]);
                    assert(s[s.len() - 1] == s.last());
                }
            }
            assert forall|i: int| 0 <= i < r.len() implies (#[trigger] r[i]).name@.len() > 0 by {
                if i < w.len() {
                    assert(d.contains(w[i]));
                    let x = choose|x: int| 0 <= x < d.len() && d[x] == w[i];
                } else {
                    assert(s[s.len() - 1] == s.last());
                }
            }
        }
    }
}

} // verus!
