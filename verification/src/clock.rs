//! The wall clock, read through `chrono`.

use vstd::prelude::*;

verus! {

/// `chrono::Utc::now().timestamp_millis()`: milliseconds since the Unix epoch.
/// `Utc::now` measures from the epoch onwards, so the reading is never negative.
#[verifier::external_body]
pub(crate) fn unix_millis() -> (millis: i64)
    ensures
        0 <= millis,
{
    chrono::Utc::now().timestamp_millis()
}

/// `chrono::Utc::now().timestamp()`: whole seconds since the Unix epoch, never negative.
#[verifier::external_body]
pub(crate) fn unix_seconds() -> (seconds: i64)
    ensures
        0 <= seconds,
{
    chrono::Utc::now().timestamp()
}

} // verus!
