use crate::data::{Session, Todo, TodoList};
use crate::db::{get_or_create, seed_name, TodoStore};
use crate::error::Error;
use crate::todos::well_formed;
use vstd::prelude::*;

verus! {

/// How many times a conditional write of a list is tried before the store is
/// reported unavailable.
pub const WRITE_ATTEMPTS: usize = 5;

/// What became of a write that only lands if the stored list is still the one
/// it was computed from.
#[derive(Debug, Clone, Copy, PartialEq, Eq, Structural)]
pub enum WriteOutcome {
    Written,
    Conflict,
}

/// What follows write number `attempt` (counted from zero): `Ok(None)` when
/// it landed, `Ok(Some(n))` to read again and make attempt `n`, and
/// `StorageUnavailable` once the attempts are used up.
pub fn after_write(attempt: usize, outcome: WriteOutcome) -> (r: Result<Option<usize>, Error>)
    requires
        attempt < WRITE_ATTEMPTS,
    ensures
        match outcome {
            WriteOutcome::Written => r == Ok::<Option<usize>, Error>(None),
            WriteOutcome::Conflict => if attempt + 1 < WRITE_ATTEMPTS {
                r == Ok::<Option<usize>, Error>(Some((attempt + 1) as usize))
            } else {
                r matches Err(e) && e is StorageUnavailable
            },
        },
{
    match outcome {
        WriteOutcome::Written => Ok(None),
        WriteOutcome::Conflict => if attempt + 1 < WRITE_ATTEMPTS {
            Ok(Some(attempt + 1))
        } else {
            Err(Error::StorageUnavailable)
        },
    }
}

/// The answer to a request for a session's list, and what it asks of the
/// persistence layer: `store_new` when `list` is a new list to be stored
/// (only if none exists yet), `hand_out_token` when the client must be given
/// the session's token.
pub struct Provided {
    pub list: TodoList,
    pub store_new: bool,
    pub hand_out_token: bool,
}

/// Decides a request for a session's list, given the presented session and,
/// for one, the list found stored under it. A found list is handed back as it
/// is; with none found, a new list seeded with one item is made under the
/// presented token, or under a fresh one when none was presented. A found
/// list that breaks the list invariant is `StorageUnavailable`.
pub fn provide(identity: Option<Session>, found: Option<Vec<Todo>>) -> (r: Result<Provided, Error>)
    ensures
        match (identity, found) {
            (Some(s), Some(v)) => if well_formed(v@) {
                r matches Ok(p) && p.list.session == s && p.list.todos@ == v@ && !p.store_new
                    && !p.hand_out_token
            } else {
                r matches Err(e) && e is StorageUnavailable
            },
            (Some(s), None) => r matches Ok(p) && p.list.session == s && p.list.todos@.len() == 1
                && p.list.todos@[0].name@ == seed_name() && p.store_new && !p.hand_out_token,
            (None, _) => r matches Ok(p) && p.list.todos@.len() == 1 && p.list.todos@[0].name@
                == seed_name() && p.store_new && p.hand_out_token,
        },
{
    let (mut snapshot, store_new) = match identity {
        Some(s) => {
            let store_new = found.is_none();
            (TodoStore::holding(s, found)?, store_new)
        },
        None => (TodoStore::new(), true),
    };
    let list = get_or_create(&mut snapshot, identity)?;
    Ok(Provided { list, store_new, hand_out_token: identity.is_none() })
}

} // verus!
