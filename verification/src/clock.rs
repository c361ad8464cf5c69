//! Wall-clock time, read through `std::time`.
use vstd::prelude::*;

use std::time::{Duration, SystemTime};

verus! {

#[verifier::external_type_specification]
#[verifier::external_body]
pub struct ExSystemTime(SystemTime);

/// `SystemTime::now`: the current wall-clock time; nothing is promised of it.
#[verifier::external_body]
fn system_time_now() -> SystemTime {
    SystemTime::now()
}

/// `SystemTime::duration_since(UNIX_EPOCH)`: the time elapsed since the epoch, `None` when `t`
/// lies before it; nothing is promised of the duration.
#[verifier::external_body]
fn elapsed_since_epoch(t: &SystemTime) -> Option<Duration> {
    t.duration_since(std::time::UNIX_EPOCH).ok()
}

/// `Duration::as_secs`: whole seconds of `d`; nothing is promised, `Duration` being opaque here.
#[verifier::external_body]
fn duration_whole_secs(d: &Duration) -> u64 {
    d.as_secs()
}

/// `Duration::as_millis`, truncated to `u64`: whole milliseconds of `d`; nothing is promised,
/// `Duration` being opaque here.
#[verifier::external_body]
fn duration_whole_millis(d: &Duration) -> u64 {
    d.as_millis() as u64
}

/// Seconds since the Unix epoch; 0 when the clock reads a time before the epoch.
pub fn now_unix() -> u64 {
    match elapsed_since_epoch(&system_time_now()) {
        Some(d) => duration_whole_secs(&d),
        None => 0,
    }
}

/// Milliseconds since the Unix epoch; 0 when the clock reads a time before the epoch.
pub fn now_ms() -> u64 {
    match elapsed_since_epoch(&system_time_now()) {
        Some(d) => duration_whole_millis(&d),
        None => 0,
    }
}

} // verus!
