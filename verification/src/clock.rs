//! The wall clock, read through the standard library.

use std::time::{Duration, SystemTime, UNIX_EPOCH};
use vstd::prelude::*;

verus! {

#[verifier::external_type_specification]
#[verifier::external_body]
pub struct ExSystemTime(SystemTime);

/// `SystemTime::now`: the reading of the system clock at the moment of the
/// call. Nothing is claimed of it: the clock may be set to any time, and may
/// be set back between two calls.
#[verifier::external_body]
fn now() -> SystemTime {
    SystemTime::now()
}

/// `SystemTime::duration_since`, taken from `UNIX_EPOCH`: the time from the
/// epoch to `time`, or `None` where `time` lies before the epoch. Nothing
/// more is claimed of it.
#[verifier::external_body]
fn since_epoch(time: &SystemTime) -> Option<Duration> {
    time.duration_since(UNIX_EPOCH).ok()
}

/// `Duration::as_millis`: the whole milliseconds in `span`. Nothing is
/// claimed of the number.
#[verifier::external_body]
fn whole_millis(span: &Duration) -> u128 {
    span.as_millis()
}

/// Milliseconds since the epoch by the system clock; zero where the clock
/// reads a time before the epoch.
pub(crate) fn unix_millis() -> u128 {
    let time = now();
    match since_epoch(&time) {
        Some(span) => whole_millis(&span),
        None => 0,
    }
}

} // verus!
