//! From an event time on the wire to an instant the store can hold.

use vstd::prelude::*;

verus! {

/// An event time read as a signed count of milliseconds: the same 64 bits, in two's complement.
pub open spec fn signed_millis(event_time: u64) -> i64 {
    if event_time <= i64::MAX as u64 {
        event_time as i64
    } else {
        (event_time - 0x1_0000_0000_0000_0000) as i64
    }
}

/// The UTC instant that chrono makes of a count of milliseconds since the Unix epoch, given back
/// as milliseconds; `None` where chrono has no date for it.
pub uninterp spec fn utc_instant(millis: i64) -> Option<i64>;

/// Calls `chrono::DateTime::<Utc>::from_timestamp_millis` and reads the instant back with
/// `timestamp_millis`. The result is named, not computed here: chrono alone decides which counts
/// are in range. Where it has an instant, the instant is `millis` again, as chrono documents of
/// the two functions.
#[verifier::external_body]
fn utc_from_millis(millis: i64) -> (instant: Option<i64>)
    ensures
        instant == utc_instant(millis),
        instant matches Some(m) ==> m == millis,
{
    match chrono::DateTime::from_timestamp_millis(millis) {
        Some(instant) => Some(instant.timestamp_millis()),
        None => None,
    }
}

/// Reads an event time as signed milliseconds.
pub fn to_signed_millis(event_time: u64) -> (millis: i64)
    ensures
        millis == signed_millis(event_time),
{
    if event_time <= 0x7fff_ffff_ffff_ffff {
        event_time as i64
    } else {
        let low: u64 = event_time - 0x8000_0000_0000_0000;
        (low as i64) + i64::MIN
    }
}

/// The instant at which a trade with this event time is persisted, or `None` if the event time
/// cannot be converted.
pub fn persisted_instant(event_time: u64) -> (instant: Option<i64>)
    ensures
        instant == utc_instant(signed_millis(event_time)),
        instant matches Some(m) ==> m == signed_millis(event_time),
{
    utc_from_millis(to_signed_millis(event_time))
}

} // verus!
