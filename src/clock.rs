//! The wall clock, in whole seconds since the Unix epoch. Reading it can
//! fail (a clock set before 1970, or a time outside the calendar's range);
//! the failure is a value, never a panic.

use vstd::prelude::*;

verus! {

/// Relies on std's `SystemTime::now` and `SystemTime::duration_since`
/// (with `Duration::as_secs`): the whole seconds elapsed since the Unix
/// epoch, or `None` when the clock reads earlier than the epoch. Nothing is
/// known of the value.
#[verifier::external_body]
fn seconds_since_epoch() -> (r: Option<u64>) {
    std::time::SystemTime::now().duration_since(std::time::UNIX_EPOCH).ok().map(|d| d.as_secs())
}

/// Relies on chrono's `DateTime::from_timestamp` and `DateTime::timestamp`:
/// the UTC date-time `secs` seconds after the epoch, read back as seconds;
/// `None` when that date is outside chrono's range.
#[verifier::external_body]
fn utc_timestamp(secs: i64) -> (r: Option<i64>)
    ensures
        r matches Some(t) ==> t == secs,
{
    chrono::DateTime::from_timestamp(secs, 0).map(|d| d.timestamp())
}

/// The current UTC time in seconds since the epoch, or `None` when the
/// clock cannot be read as such.
pub(crate) fn now_ts() -> (r: Option<i64>) {
    let secs = match seconds_since_epoch() {
        Some(s) => s,
        None => return None,
    };
    if secs > i64::MAX as u64 {
        return None;
    }
    utc_timestamp(secs as i64)
}

} // verus!
