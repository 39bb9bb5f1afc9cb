use crate::data::{Session, Todo, TodoList};
use crate::db::{get_or_create_outcome, inserted};
use crate::error::Error;
use crate::todos::{capped, has_id, ids_unique, renamed, without, TODO_CAP};
use vstd::prelude::*;

verus! {

/// The list after pushing each of `ts` in turn onto `s`, trimming to the cap
/// after each push, as `create_todo` does.
pub open spec fn pushed_all(s: Seq<Todo>, ts: Seq<Todo>) -> Seq<Todo>
    decreases ts.len(),
{
    if ts.len() == 0 {
        s
    } else {
        capped(pushed_all(s, ts.drop_last()).push(ts.last()))
    }
}

proof fn lemma_capped_push(x: Seq<Todo>, t: Todo)
    ensures
        capped(capped(x).push(t)) == capped(x.push(t)),
{
    if x.len() > TODO_CAP {
        assert(capped(capped(x).push(t)) =~= capped(x.push(t)));
    }
}

/// Cap invariant: after any number of pushes onto a list within the cap, the
/// list is the newest `min(initial + pushed, cap)` items of everything ever
/// pushed, oldest first; once the cap's worth have been pushed, it is exactly
/// the last of them.
pub proof fn lemma_cap_invariant(s: Seq<Todo>, ts: Seq<Todo>)
    requires
        s.len() <= TODO_CAP,
    ensures
        pushed_all(s, ts) == capped(s + ts),
        pushed_all(s, ts).len() == if s.len() + ts.len() <= TODO_CAP {
            (s.len() + ts.len()) as int
        } else {
            TODO_CAP as int
        },
        ts.len() >= TODO_CAP ==> pushed_all(s, ts) == ts.subrange(
            ts.len() - TODO_CAP,
            ts.len() as int,
        ),
    decreases ts.len(),
{
    if ts.len() == 0 {
        assert(s + ts =~= s);
    } else {
        lemma_cap_invariant(s, ts.drop_last());
        lemma_capped_push(s + ts.drop_last(), ts.last());
        assert((s + ts.drop_last()).push(ts.last()) =~= s + ts);
    }
    if ts.len() >= TODO_CAP {
        assert(capped(s + ts) =~= ts.subrange(ts.len() - TODO_CAP, ts.len() as int));
    }
}

proof fn lemma_inserts_follow_pushes(ms: Seq<Map<u128, Seq<Todo>>>, id: u128, ts: Seq<Todo>)
    requires
        ms.len() == ts.len() + 1,
        ms[0].contains_key(id),
        forall|i: int| 0 <= i < ts.len() ==> ms[i + 1] == #[trigger] inserted(ms[i], id, ts[i]),
    ensures
        ms.last().contains_key(id),
        ms.last()[id] == pushed_all(ms[0][id], ts),
        ms.last().remove(id) == ms[0].remove(id),
    decreases ts.len(),
{
    if ts.len() > 0 {
        let n = ts.len();
        let pre = ms.drop_last();
        assert forall|i: int| 0 <= i < ts.drop_last().len() implies pre[i + 1]
            == #[trigger] inserted(pre[i], id, ts.drop_last()[i]) by {
            assert(ms[i + 1] == inserted(ms[i], id, ts[i]));
        }
        lemma_inserts_follow_pushes(pre, id, ts.drop_last());
        assert(ms[n as int] == inserted(ms[n - 1], id, ts[n - 1]));
        assert(ms.last().remove(id) =~= pre.last().remove(id));
    } else {
        assert(ts =~= Seq::<Todo>::empty());
    }
}

/// Cap invariant over a run of inserts into one session: when each step of
/// `ms` is the push of the next of `ts` onto session `id`'s list (what
/// `create_todo` does with an identifier not yet in the list), the list ends
/// as the newest `min(initial + pushed, cap)` of all items, oldest first (the
/// last of `ts` alone once a cap's worth were pushed), and the other sessions
/// end as they began.
pub proof fn lemma_inserts_in_a_row(ms: Seq<Map<u128, Seq<Todo>>>, id: u128, ts: Seq<Todo>)
    requires
        ms.len() == ts.len() + 1,
        ms[0].contains_key(id),
        ms[0][id].len() <= TODO_CAP,
        forall|i: int| 0 <= i < ts.len() ==> ms[i + 1] == #[trigger] inserted(ms[i], id, ts[i]),
    ensures
        ms.last().contains_key(id),
        ms.last()[id] == capped(ms[0][id] + ts),
        ms.last()[id].len() == if ms[0][id].len() + ts.len() <= TODO_CAP {
            (ms[0][id].len() + ts.len()) as int
        } else {
            TODO_CAP as int
        },
        ts.len() >= TODO_CAP ==> ms.last()[id] == ts.subrange(ts.len() - TODO_CAP, ts.len() as int),
        ms.last().remove(id) == ms[0].remove(id),
{
    lemma_inserts_follow_pushes(ms, id, ts);
    lemma_cap_invariant(ms[0][id], ts);
}

/// Idempotent provisioning: asking twice for the list of the same presented
/// session gives the same items both times and leaves the store as the first
/// call left it; for a session that already had a list, both calls hand back
/// that list and change nothing.
pub proof fn lemma_provisioning_idempotent(
    m0: Map<u128, Seq<Todo>>,
    session: Session,
    r1: Result<TodoList, Error>,
    m1: Map<u128, Seq<Todo>>,
    r2: Result<TodoList, Error>,
    m2: Map<u128, Seq<Todo>>,
)
    requires
        get_or_create_outcome(m0, Some(session), r1, m1),
        get_or_create_outcome(m1, Some(session), r2, m2),
    ensures
        r1 is Ok && r2 is Ok,
        r2->Ok_0.todos@ == r1->Ok_0.todos@,
        m2 == m1,
        m0.contains_key(session.id) ==> m1 == m0 && r1->Ok_0.todos@ == m0[session.id],
{
    assert(m1.contains_key(session.id));
}

/// Isolation: pushing onto one session's list leaves every other session
/// as it was, present or not.
pub proof fn lemma_insert_isolated(m: Map<u128, Seq<Todo>>, a: u128, b: u128, todo: Todo)
    requires
        a != b,
    ensures
        inserted(m, a, todo).contains_key(b) == m.contains_key(b),
        m.contains_key(b) ==> inserted(m, a, todo)[b] == m[b],
{
}

/// An update keeps the item's identifier and position, sets its name, and
/// moves its timestamp strictly forward, whatever the clock reads (below the
/// largest stamp there is); the other items stay as they were.
pub proof fn lemma_update_preserves_identity(
    s: Seq<Todo>,
    item_id: u128,
    name: String,
    now: i64,
    i: int,
)
    requires
        0 <= i < s.len(),
        s[i].id == item_id,
        s[i].timestamp < i64::MAX,
    ensures
        renamed(s, item_id, name, now).len() == s.len(),
        renamed(s, item_id, name, now)[i].id == item_id,
        renamed(s, item_id, name, now)[i].name == name,
        renamed(s, item_id, name, now)[i].timestamp > s[i].timestamp,
        forall|j: int|
            0 <= j < s.len() && s[j].id != item_id ==> #[trigger] renamed(
                s,
                item_id,
                name,
                now,
            )[j] == s[j],
{
}

proof fn lemma_without_absent(s: Seq<Todo>, id: u128)
    requires
        !has_id(s, id),
    ensures
        without(s, id) == s,
    decreases s.len(),
{
    reveal(Seq::filter);
    if s.len() > 0 {
        assert(!has_id(s.drop_last(), id)) by {
            if has_id(s.drop_last(), id) {
                let k = choose|k: int| 0 <= k < s.drop_last().len() && #[trigger] s.drop_last()[k].id
                    == id;
                assert(s[k].id == id);
            }
        }
        lemma_without_absent(s.drop_last(), id);
        assert(s[s.len() - 1].id != id);
        assert(s.drop_last().push(s.last()) =~= s);
    }
}

/// Delete removes exactly one: from a list with unique identifiers that holds
/// `item_id`, removal leaves one item fewer, and none carries `item_id`.
pub proof fn lemma_delete_removes_one(s: Seq<Todo>, item_id: u128)
    requires
        ids_unique(s),
        has_id(s, item_id),
    ensures
        without(s, item_id).len() == s.len() - 1,
        !has_id(without(s, item_id), item_id),
    decreases s.len(),
{
    reveal(Seq::filter);
    let d = s.drop_last();
    assert(ids_unique(d)) by {
        assert forall|i: int, j: int|
            0 <= i < d.len() && 0 <= j < d.len() && i != j implies #[trigger] d[i].id
            != #[trigger] d[j].id by {
            assert(s[i].id != s[j].id);
        }
    }
    if s.last().id == item_id {
        assert(!has_id(d, item_id)) by {
            if has_id(d, item_id) {
                let k = choose|k: int| 0 <= k < d.len() && #[trigger] d[k].id == item_id;
                assert(s[k].id == s[s.len() - 1].id);
            }
        }
        lemma_without_absent(d, item_id);
    } else {
        assert(has_id(d, item_id)) by {
            let k = choose|k: int| 0 <= k < s.len() && #[trigger] s[k].id == item_id;
            assert(k != s.len() - 1);
            assert(d[k].id == item_id);
        }
        lemma_delete_removes_one(d, item_id);
        let w = without(d, item_id);
        assert(without(s, item_id) == w.push(s.last()));
        assert(!has_id(w.push(s.last()), item_id)) by {
            if has_id(w.push(s.last()), item_id) {
                let k = choose|k: int|
                    0 <= k < w.push(s.last()).len() && #[trigger] w.push(s.last())[k].id == item_id;
                if k < w.len() {
                    assert(w[k].id == item_id);
                }
            }
        }
    }
}

} // verus!
