//! Draws from the thread's random number generator.
//!
//! Nothing here is proved: each function makes one call into `rand` and states
//! what holds of every value that the call can hand back.

use rand::Rng;
use vstd::prelude::*;

verus! {

/// `Rng::gen_range` on the half-open range `low..high` of `u64`: the draw lies in it.
/// The call panics on an empty range, which `requires` leaves out.
#[verifier::external_body]
pub(crate) fn random_u64_in(low: u64, high: u64) -> (draw: u64)
    requires
        low < high,
    ensures
        low <= draw < high,
{
    rand::thread_rng().gen_range(low..high)
}

/// `Rng::gen_range` on the half-open range `low..high` of `i64`: the draw lies in it.
/// The call panics on an empty range, which `requires` leaves out.
#[verifier::external_body]
pub(crate) fn random_i64_in(low: i64, high: i64) -> (draw: i64)
    requires
        low < high,
    ensures
        low <= draw < high,
{
    rand::thread_rng().gen_range(low..high)
}

/// `Rng::gen` for `u8`: any byte.
#[verifier::external_body]
pub(crate) fn random_u8() -> (draw: u8) {
    rand::thread_rng().gen::<u8>()
}

/// `Rng::gen` for `u32`: any value.
#[verifier::external_body]
pub(crate) fn random_u32() -> (draw: u32) {
    rand::thread_rng().gen::<u32>()
}

/// `Rng::gen` for `u64`: any value.
#[verifier::external_body]
pub(crate) fn random_u64() -> (draw: u64) {
    rand::thread_rng().gen::<u64>()
}

/// `Rng::gen_ratio` with one chance in two: either answer.
#[verifier::external_body]
pub(crate) fn random_coin() -> (heads: bool) {
    rand::thread_rng().gen_ratio(1, 2)
}

/// `uuid::Uuid::new_v4().to_string()`: a fresh random identifier in its hyphenated
/// form, which has 36 characters.
#[verifier::external_body]
pub(crate) fn random_uuid() -> (id: String)
    ensures
        id@.len() == 36,
{
    uuid::Uuid::new_v4().to_string()
}

} // verus!
