//! The current time as UTC Unix seconds.
use std::time::{Duration, SystemTime, UNIX_EPOCH};
use vstd::prelude::*;

verus! {

#[verifier::external_type_specification]
#[verifier::external_body]
pub struct ExSystemTime(SystemTime);

/// `SystemTime::now`: the system clock. Nothing is claimed of the value.
#[verifier::external_body]
fn system_now() -> SystemTime {
    SystemTime::now()
}

/// `SystemTime::duration_since(UNIX_EPOCH)`: `None` when the clock is set
/// before 1970. Nothing is claimed of the duration.
#[verifier::external_body]
fn since_unix_epoch(time: &SystemTime) -> Option<Duration> {
    time.duration_since(UNIX_EPOCH).ok()
}

/// `Duration::as_secs`: the whole seconds of a duration. Nothing is claimed
/// of the value.
#[verifier::external_body]
fn whole_seconds(duration: &Duration) -> u64 {
    duration.as_secs()
}

/// The current time in whole UTC Unix seconds, or `None` when the system
/// clock reads a time before the Unix epoch.
pub fn unix_now() -> Option<u64> {
    let time = system_now();
    match since_unix_epoch(&time) {
        Some(duration) => Some(whole_seconds(&duration)),
        None => None,
    }
}

} // verus!
