//! Wall-clock time as milliseconds since the Unix epoch.
use vstd::prelude::*;

use std::time::{Duration, SystemTime, UNIX_EPOCH};

verus! {

#[verifier::external_type_specification]
#[verifier::external_body]
pub struct ExSystemTime(SystemTime);

/// Relies on `SystemTime::now`: the current wall-clock time. Nothing is
/// promised of the value.
#[verifier::external_body]
fn system_now() -> (r: SystemTime) {
    SystemTime::now()
}

/// Relies on `SystemTime::duration_since`: the time elapsed since the Unix
/// epoch, or `None` when the clock reads earlier than the epoch.
#[verifier::external_body]
fn since_unix_epoch(t: &SystemTime) -> (r: Option<Duration>) {
    t.duration_since(UNIX_EPOCH).ok()
}

/// Relies on `Duration::as_millis`: the whole milliseconds of a duration.
#[verifier::external_body]
fn whole_millis(d: &Duration) -> (r: u128) {
    d.as_millis()
}

/// Milliseconds since the Unix epoch as an `i64`, from a clock reading in
/// whole milliseconds (`None` for a clock set before the epoch): 0 before
/// the epoch, `i64::MAX` past the end of `i64`, the reading otherwise.
pub fn epoch_ms_of(ms: Option<u128>) -> (r: i64)
    ensures
        r == match ms {
            Some(m) => if m > i64::MAX as u128 {
                i64::MAX as int
            } else {
                m as int
            },
            None => 0,
        },
        r >= 0,
{
    match ms {
        Some(m) => if m > i64::MAX as u128 {
            i64::MAX
        } else {
            m as i64
        },
        None => 0,
    }
}

/// The wall clock in milliseconds since the Unix epoch, as `epoch_ms_of`
/// converts the current reading.
pub fn now_epoch_ms() -> (r: i64)
    ensures
        r >= 0,
{
    let reading = match since_unix_epoch(&system_now()) {
        Some(d) => Some(whole_millis(&d)),
        None => None,
    };
    epoch_ms_of(reading)
}

} // verus!
