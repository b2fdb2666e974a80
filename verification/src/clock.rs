//! Wall-clock time in whole seconds since the Unix epoch.
use vstd::prelude::*;
use std::time::{Duration, SystemTime, SystemTimeError, UNIX_EPOCH};

verus! {

#[verifier::external_type_specification]
#[verifier::external_body]
pub struct ExSystemTime(SystemTime);

#[verifier::external_type_specification]
#[verifier::external_body]
pub struct ExSystemTimeError(SystemTimeError);

/// `SystemTime::now`: the current time (nothing is known of it).
#[verifier::external_body]
fn system_time_now() -> SystemTime {
    SystemTime::now()
}

/// `SystemTime::duration_since(UNIX_EPOCH)`: the time since the epoch, or an error for a
/// time before it.
#[verifier::external_body]
fn since_unix_epoch(t: &SystemTime) -> Result<Duration, SystemTimeError> {
    t.duration_since(UNIX_EPOCH)
}

/// `Duration::as_secs`: the whole seconds of a duration.
#[verifier::external_body]
fn duration_secs(d: &Duration) -> u64 {
    d.as_secs()
}

/// Whole seconds since the epoch from a clock reading: the seconds when the clock reads
/// after the epoch, 0 when it reads before.
pub fn secs_or_zero(since_epoch: Result<u64, ()>) -> (s: u64)
    ensures
        s == match since_epoch {
            Ok(v) => v,
            Err(_) => 0,
        },
{
    match since_epoch {
        Ok(v) => v,
        Err(_) => 0,
    }
}

/// The current Unix time in seconds; 0 when the clock reads before the epoch (see
/// `secs_or_zero`).
pub fn now_secs() -> u64 {
    let now = system_time_now();
    let reading = match since_unix_epoch(&now) {
        Ok(d) => Ok(duration_secs(&d)),
        Err(_) => Err(()),
    };
    secs_or_zero(reading)
}

} // verus!
