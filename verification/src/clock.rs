//! The system clock, read for the time stamps of bans.
use vstd::prelude::*;

use std::time::{Duration, SystemTime};

verus! {

#[verifier::external_type_specification]
#[verifier::external_body]
pub struct ExSystemTime(SystemTime);

/// `SystemTime::now`: the current time.  Nothing is claimed of it: it
/// depends on the machine's clock.
#[verifier::external_body]
fn system_time_now() -> SystemTime {
    SystemTime::now()
}

/// `SystemTime::duration_since(UNIX_EPOCH)`, its error (a clock set before
/// 1970) given as `None`.  Nothing is claimed of the duration.
#[verifier::external_body]
fn duration_since_unix_epoch(t: &SystemTime) -> Option<Duration> {
    t.duration_since(std::time::UNIX_EPOCH).ok()
}

/// `Duration::as_secs`: the whole seconds of a duration.  The duration is
/// opaque here, so nothing is claimed of the result.
#[verifier::external_body]
fn duration_as_secs(d: &Duration) -> u64 {
    d.as_secs()
}

/// Whole seconds since the Unix epoch by the system clock, or `None` when the
/// clock reads earlier than the epoch.
pub(crate) fn seconds_since_epoch() -> Option<u64> {
    let now = system_time_now();
    match duration_since_unix_epoch(&now) {
        Some(d) => Some(duration_as_secs(&d)),
        None => None,
    }
}

} // verus!
