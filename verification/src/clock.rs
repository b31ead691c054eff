//! Wall-clock timestamps.

use std::time::{Duration, SystemTime, UNIX_EPOCH};
use vstd::prelude::*;

verus! {

/// `std::time::SystemTime`, a reading of the system clock, as a value of
/// which nothing is known.
#[verifier::external_type_specification]
#[verifier::external_body]
pub struct ExSystemTime(SystemTime);

/// Calls `SystemTime::now`. Nothing is claimed of the reading.
#[verifier::external_body]
fn read_system_clock() -> (moment: SystemTime) {
    SystemTime::now()
}

/// Calls `SystemTime::duration_since` with the Unix epoch as the earlier
/// moment: the time that has passed since, or `None` where `moment` lies
/// before the epoch. Nothing is claimed of the span.
#[verifier::external_body]
fn since_unix_epoch(moment: &SystemTime) -> (elapsed: Option<Duration>) {
    match moment.duration_since(UNIX_EPOCH) {
        Ok(span) => Some(span),
        Err(_) => None,
    }
}

/// Calls `Duration::as_secs`: the whole seconds of the span. Nothing is
/// claimed of their number.
#[verifier::external_body]
fn whole_seconds(span: &Duration) -> (seconds: u64) {
    span.as_secs()
}

/// Seconds since the Unix epoch by the system clock; zero where the clock
/// is set to a moment before the epoch.
pub fn now() -> (seconds: u64) {
    let moment = read_system_clock();
    let elapsed = match since_unix_epoch(&moment) {
        Some(span) => Some(whole_seconds(&span)),
        None => None,
    };
    timestamp(elapsed)
}

/// The timestamp for a reading of the clock: the whole seconds that have
/// passed since the Unix epoch, and zero for a reading from before the
/// epoch, which comes as `None`.
pub fn timestamp(elapsed: Option<u64>) -> (seconds: u64)
    ensures
        seconds == match elapsed {
            Some(passed) => passed,
            None => 0,
        },
{
    match elapsed {
        Some(passed) => passed,
        None => 0,
    }
}

} // verus!
