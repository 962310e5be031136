//! The time of the host and of the calendar, as far as a game record needs
//! them.

use vstd::prelude::*;

verus! {

/// The latest second, counted from 1970-01-01T00:00:00Z, up to which
/// [`utc_millis`] is sure to give a time: the last second of the year 9999.
pub const LAST_SECOND: i64 = 253_402_300_799;

/// The latest microsecond, counted from 1970-01-01T00:00:00Z, that lies
/// before the end of the year 9999.
pub const LAST_MICROSECOND: i64 = 253_402_300_799_999_999;

/// The whole seconds in a number of microseconds, rounded towards zero.
pub open spec fn whole_seconds(micros: i64) -> int {
    if micros >= 0 {
        micros / 1_000_000
    } else {
        -((-micros) / 1_000_000)
    }
}

/// What is left of a number of microseconds beside the whole seconds, in
/// nanoseconds, as the host's time gives it: for a time before 1970 that is
/// not a whole second, the negative rest wrapped round to 32 bits.
pub open spec fn rest_nanos(micros: i64) -> int {
    if micros >= 0 {
        (micros % 1_000_000) * 1000
    } else if (-micros) % 1_000_000 == 0 {
        0
    } else {
        0x1_0000_0000 - ((-micros) % 1_000_000) * 1000
    }
}

/// The seconds and nanoseconds of a time of the host, which counts in
/// microseconds from 1970-01-01T00:00:00Z.
///
/// Calls `Timestamp::as_seconds_and_nanos` of the host's development kit.
/// Not proved, but taken from its source: the seconds are the microseconds
/// divided by a million, the nanoseconds the remainder times a thousand, both
/// by the machine's division, which rounds towards zero, and the
/// nanoseconds then cut to 32 bits.
#[verifier::external_body]
pub(crate) fn seconds_and_nanos(micros: i64) -> (parts: (i64, u32))
    ensures
        parts.0 == whole_seconds(micros),
        parts.1 == rest_nanos(micros),
{
    hdk::prelude::Timestamp(micros).as_seconds_and_nanos()
}

/// The milliseconds that lie between 1970-01-01T00:00:00Z and the point of time
/// `secs` seconds and `nanos` nanoseconds after it.
pub open spec fn millis_at(secs: i64, nanos: u32) -> int {
    secs * 1000 + nanos / 1_000_000
}

/// The point of time `secs` seconds and `nanos` nanoseconds after
/// 1970-01-01T00:00:00Z, in milliseconds, where the calendar has that point.
///
/// Calls `chrono::DateTime::from_timestamp` and reads the result with
/// `chrono::DateTime::timestamp_millis`. Not proved, but taken from chrono:
/// the first gives a time for every second from 1970 to the end of the year
/// 9999 with less than a second's worth of nanoseconds, gives none for two
/// seconds' worth of nanoseconds or more, and the time it gives holds the
/// seconds and nanoseconds it was made from; the second returns those seconds
/// times 1000 plus the whole milliseconds in the nanoseconds.
#[verifier::external_body]
pub(crate) fn utc_millis(secs: i64, nanos: u32) -> (millis: Option<i64>)
    ensures
        millis matches Some(ms) ==> ms == millis_at(secs, nanos),
        0 <= secs <= LAST_SECOND && nanos < 1_000_000_000 ==> millis is Some,
        nanos >= 2_000_000_000 ==> millis is None,
{
    match chrono::DateTime::from_timestamp(secs, nanos) {
        Some(time) => Some(time.timestamp_millis()),
        None => None,
    }
}

} // verus!
