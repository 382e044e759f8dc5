//! The wall clock, as far as the generator needs it: the time that has
//! passed since the Unix epoch.
//!
//! The items here rest on trust, but for `read_millis`, which only strings
//! them together: each states what the standard library documents of one of
//! its functions, and the generator is verified for every reading that
//! these calls can hand back.

use std::time::{Duration, SystemTimeError, UNIX_EPOCH};
use vstd::prelude::*;

verus! {

/// `std::time::SystemTimeError`: the error of a clock measurement that lies
/// before the instant it is measured against. It is only carried through.
#[verifier::external_type_specification]
#[verifier::external_body]
pub struct ExSystemTimeError(SystemTimeError);

/// `Duration::as_millis`: the whole milliseconds that a duration holds.
/// Nothing is claimed of the number.
pub assume_specification[ Duration::as_millis ](elapsed: &Duration) -> (millis: u128);

/// `SystemTime::elapsed` on `UNIX_EPOCH`: reads the system clock and measures
/// it against the epoch. The result is an error when the clock stands before
/// the epoch. Nothing is claimed of it: two readings may differ in any way.
#[verifier::external_body]
pub(crate) fn elapsed_since_epoch() -> (outcome: Result<Duration, SystemTimeError>) {
    UNIX_EPOCH.elapsed()
}

/// Reads the wall clock in whole milliseconds since the Unix epoch. There
/// is no reading where the clock stands before the epoch.
pub(crate) fn read_millis() -> (reading: Option<u128>) {
    match elapsed_since_epoch() {
        Ok(elapsed) => Some(elapsed.as_millis()),
        Err(_) => None,
    }
}

} // verus!
