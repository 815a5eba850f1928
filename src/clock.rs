use vstd::prelude::*;

use chrono::{Local, TimeZone};

use crate::todo::TodoError;

verus! {

/// The last timestamp that renders as a date: 9999-12-31 00:00:00 UTC. Under
/// any offset, which stays below a day, its local year is at most 9999.
pub const LAST_RENDERABLE: u64 = 253402214400;

/// Relies on `SystemTime::now`, `SystemTime::duration_since(UNIX_EPOCH)` and
/// `Duration::as_secs`: the whole seconds since the Unix epoch, or `None`
/// where the clock stands before it. Nothing is promised of the value.
#[verifier::external_body]
fn seconds_since_epoch() -> (r: Option<u64>) {
    match std::time::SystemTime::now().duration_since(std::time::UNIX_EPOCH) {
        Ok(d) => Some(d.as_secs()),
        Err(_) => None,
    }
}

/// The seconds since the epoch that a clock reading gives; a reading before
/// the epoch (`None`) counts as 0.
pub fn timestamp_or_zero(since: Option<u64>) -> (r: u64)
    ensures
        r == match since {
            Some(v) => v,
            None => 0,
        },
{
    match since {
        Some(v) => v,
        None => 0,
    }
}

/// The current Unix time in seconds, or 0 where the clock stands before the
/// epoch (see `timestamp_or_zero`).
pub fn get_timestamp() -> (r: u64) {
    timestamp_or_zero(seconds_since_epoch())
}

/// Relies on chrono's `TimeZone::timestamp_opt` for `Local` and on
/// `DateTime::to_rfc2822`: a timestamp in this range is a single local
/// instant, and its local year lies in 0..=9999, where `to_rfc2822` does
/// not panic. The text depends on the machine's time zone; it starts with
/// the weekday, so it is never empty.
#[verifier::external_body]
fn local_rfc2822(secs: i64) -> (r: Option<String>)
    requires
        0 <= secs <= LAST_RENDERABLE,
    ensures
        r is Some,
        r->0@.len() > 0,
{
    match Local.timestamp_opt(secs, 0).single() {
        Some(d) => Some(d.to_rfc2822()),
        None => None,
    }
}

/// The timestamp as an RFC 2822 date in the local time zone. Fails for a
/// timestamp after `LAST_RENDERABLE`.
pub fn readable_datetime(timestamp: u64) -> (r: Result<String, TodoError>)
    ensures
        timestamp <= LAST_RENDERABLE ==> r is Ok && r->Ok_0@.len() > 0,
        timestamp > LAST_RENDERABLE ==> r == Err::<String, TodoError>(TodoError::InvalidTimestamp),
{
    if timestamp > LAST_RENDERABLE {
        return Err(TodoError::InvalidTimestamp);
    }
    match local_rfc2822(timestamp as i64) {
        Some(text) => Ok(text),
        None => Err(TodoError::InvalidTimestamp),
    }
}

} // verus!
