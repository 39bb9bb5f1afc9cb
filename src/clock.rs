use vstd::prelude::*;

verus! {

/// Relies on chrono::Utc::now, read through timestamp_millis: the current
/// time in milliseconds since the Unix epoch, never before it (Utc::now
/// panics on a clock set before 1970).
#[verifier::external_body]
pub(crate) fn now_millis() -> (r: i64)
    ensures
        r >= 0,
{
    chrono::Utc::now().timestamp_millis()
}

} // verus!
