//! Reading the wall clock as whole seconds since the Unix epoch.

use std::time::{Duration, SystemTime, SystemTimeError, UNIX_EPOCH};
use vstd::prelude::*;

verus! {

/// `std::time::SystemTime`, carried through as an opaque value.
#[verifier::external_type_specification]
#[verifier::external_body]
pub struct ExSystemTime(SystemTime);

/// `std::time::SystemTimeError`, carried through as an opaque value.
#[verifier::external_type_specification]
#[verifier::external_body]
pub struct ExSystemTimeError(SystemTimeError);

/// Calls `SystemTime::now`. Trusted to return; nothing is claimed of the
/// instant that comes back.
#[verifier::external_body]
fn system_now() -> SystemTime {
    SystemTime::now()
}

/// Calls `SystemTime::duration_since` with `UNIX_EPOCH`. Trusted to return;
/// nothing is claimed of the outcome, which is an error when `instant` lies
/// before the epoch.
#[verifier::external_body]
fn since_epoch(instant: &SystemTime) -> Result<Duration, SystemTimeError> {
    instant.duration_since(UNIX_EPOCH)
}

/// Calls `Duration::as_secs`. Trusted to return; nothing is claimed of the
/// number.
#[verifier::external_body]
fn whole_seconds(elapsed: &Duration) -> u64 {
    elapsed.as_secs()
}

/// The current time in seconds since the Unix epoch, or `None` when the clock
/// reads earlier than the epoch. The value depends on the machine, so nothing
/// is promised of it; callers pass it on to functions that hold for every
/// timestamp.
pub(crate) fn unix_timestamp() -> Option<u64> {
    let now = system_now();
    match since_epoch(&now) {
        Ok(elapsed) => Some(whole_seconds(&elapsed)),
        Err(_) => None,
    }
}

} // verus!
