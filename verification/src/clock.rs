//! The wall clock.
//!
//! A room remembers when its discussion began and asks how long ago
//! that was.  Both answers come from the system clock; the game's rules
//! take them as given.

use std::time::{Duration, SystemTime};
use vstd::prelude::*;

verus! {

/// A point in time as the system clock tells it.  Opaque: a room only
/// keeps it and asks how long ago it was.
#[verifier::external_type_specification]
#[verifier::external_body]
pub struct ExSystemTime(SystemTime);

/// The present moment.
///
/// Wraps `SystemTime::now`.
#[verifier::external_body]
pub(crate) fn now() -> SystemTime {
    SystemTime::now()
}

/// The time that has passed since `start`, or `None` when the clock has
/// been set back behind `start` in the meantime.
///
/// Wraps `SystemTime::elapsed`, which reads the system clock; nothing is
/// promised of the answer.
#[verifier::external_body]
fn elapsed(start: &SystemTime) -> Option<Duration> {
    match start.elapsed() {
        Ok(passed) => Some(passed),
        Err(_) => None,
    }
}

/// The whole seconds in a span of time.
///
/// Wraps `Duration::as_secs`.  Spans of time are opaque here, so
/// nothing is said of the number.
#[verifier::external_body]
fn whole_seconds(span: &Duration) -> u64 {
    span.as_secs()
}

/// The whole seconds that have passed since `start`, or `None` when the
/// clock has been set back behind `start` in the meantime.
pub(crate) fn seconds_since(start: &SystemTime) -> Option<u64> {
    match elapsed(start) {
        Some(passed) => Some(whole_seconds(&passed)),
        None => None,
    }
}

} // verus!
