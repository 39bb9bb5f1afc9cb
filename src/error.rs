use vstd::prelude::*;

verus! {

/// What can go wrong in the todo service and around it.
#[derive(Debug)]
pub enum Error {
    /// A session token was presented but is not a well-formed identifier.
    InvalidIdentityFormat,
    /// The operation needs a provisioned session and none exists.
    UnknownSession,
    /// The addressed item (or the session holding it) does not exist.
    NonexistentResourceError,
    /// The persistence layer failed for infrastructure reasons.
    StorageUnavailable,
    /// A run environment name that is not one of the known ones.
    ServerConfigError(String),
}

} // verus!
