//! The wall clock, in whole seconds since the epoch.

use vstd::prelude::*;
use std::time::{Duration, SystemTime, SystemTimeError, UNIX_EPOCH};

verus! {

/// The type `std::time::SystemTime`.
#[verifier::external_type_specification]
#[verifier::external_body]
pub struct ExSystemTime(SystemTime);

/// The type `std::time::SystemTimeError`.
#[verifier::external_type_specification]
#[verifier::external_body]
pub struct ExSystemTimeError(SystemTimeError);

/// `SystemTime::now`: the reading of the system clock. Nothing is stated of
/// it.
#[verifier::external_body]
fn now() -> (reading: SystemTime) {
    SystemTime::now()
}

/// `SystemTime::duration_since` with `UNIX_EPOCH`: the time that has passed
/// since the epoch, or an error where the reading lies before it. Nothing is
/// stated of either.
#[verifier::external_body]
fn since_epoch(reading: &SystemTime) -> (elapsed: Result<Duration, SystemTimeError>) {
    reading.duration_since(UNIX_EPOCH)
}

/// `Duration::as_secs`: the whole seconds of a duration, which are those
/// that `seconds_in` names.
#[verifier::external_body]
fn whole_seconds(elapsed: &Duration) -> (seconds: u64)
    ensures
        seconds == seconds_in(*elapsed),
{
    elapsed.as_secs()
}

/// The current time in whole seconds since the epoch, or `None` where the
/// system clock stands before the epoch.
pub fn get_unix() -> (seconds: Option<u64>)
    ensures
        seconds matches Some(s) ==> exists|elapsed: Duration| s == seconds_in(elapsed),
{
    seconds_since_epoch(since_epoch(&now()))
}

/// What a reading of the clock against the epoch comes to: the whole seconds
/// of the time that has passed, and `None` where the reading lay before the
/// epoch.
pub fn seconds_since_epoch(elapsed: Result<Duration, SystemTimeError>) -> (seconds: Option<u64>)
    ensures
        seconds == match elapsed {
            Ok(passed) => Some(seconds_in(passed)),
            Err(_) => None,
        },
{
    match elapsed {
        Ok(passed) => Some(whole_seconds(&passed)),
        Err(_) => None,
    }
}

/// The whole seconds that `Duration::as_secs` gives for a duration: what is
/// left of it when the fraction of a second is dropped.
pub uninterp spec fn seconds_in(elapsed: Duration) -> u64;

} // verus!
