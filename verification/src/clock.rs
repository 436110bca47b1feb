//! The wall clock, read and rendered by `chrono`.

use vstd::prelude::*;

verus! {

/// The first second of the calendar, in seconds since the Unix epoch: the beginning of the year
/// -262143.
pub const FIRST_SECOND: i64 = -8_334_601_228_800;

/// The last second of the calendar: the end of the year 262142.
pub const LAST_SECOND: i64 = 8_210_266_876_799;

/// Whether this many seconds and nanoseconds after the Unix epoch are a moment of the calendar. A
/// leap second has a billion nanoseconds or more on the last second of a minute.
pub open spec fn is_utc_moment(secs: int, nanos: int) -> bool {
    &&& FIRST_SECOND <= secs <= LAST_SECOND
    &&& 0 <= nanos < 2_000_000_000
    &&& nanos >= 1_000_000_000 ==> secs % 60 == 59
}

/// The UTC moment `secs` seconds and `nanos` nanoseconds after the Unix epoch, as
/// `chrono::DateTime::format` renders it by a pattern.
pub uninterp spec fn utc_stamp(secs: int, nanos: int, pattern: Seq<char>) -> Seq<char>;

/// The same moment as `chrono::DateTime::to_rfc3339` renders it.
pub uninterp spec fn utc_rfc3339(secs: int, nanos: int) -> Seq<char>;

/// The pattern of the stamps in the names of crash dumps.
pub const STAMP_PATTERN: &'static str = "%Y%m%d_%H%M%S";

/// Calls `chrono::Utc::now` and gives the moment as seconds and nanoseconds since the Unix
/// epoch (`timestamp`, `timestamp_subsec_nanos`). Which moment it is, is the clock's affair, and
/// nothing is said of it but that it is one of the calendar; a system clock before the epoch
/// makes `chrono` panic.
#[verifier::external_body]
pub(crate) fn utc_now() -> (r: (i64, u32))
    ensures
        is_utc_moment(r.0 as int, r.1 as int),
{
    let now = chrono::Utc::now();
    (now.timestamp(), now.timestamp_subsec_nanos())
}

/// Calls `chrono::DateTime::from_timestamp`, then `format` with the pattern: the rendered
/// moment, or `None` exactly where the numbers are no moment of the calendar. Only the pattern of
/// this library is let through, as `format` fails on a pattern it cannot read.
#[verifier::external_body]
pub(crate) fn format_utc(secs: i64, nanos: u32, pattern: &str) -> (r: Option<String>)
    requires
        pattern@ == STAMP_PATTERN@,
    ensures
        match r {
            Some(text) => is_utc_moment(secs as int, nanos as int) && text@ == utc_stamp(
                secs as int,
                nanos as int,
                pattern@,
            ),
            None => !is_utc_moment(secs as int, nanos as int),
        },
{
    match chrono::DateTime::from_timestamp(secs, nanos) {
        Some(moment) => Some(moment.format(pattern).to_string()),
        None => None,
    }
}

/// Calls `chrono::DateTime::from_timestamp`, then `to_rfc3339`: the rendered moment, or `None`
/// exactly where the numbers are no moment of the calendar.
#[verifier::external_body]
pub(crate) fn rfc3339_utc(secs: i64, nanos: u32) -> (r: Option<String>)
    ensures
        match r {
            Some(text) => is_utc_moment(secs as int, nanos as int) && text@ == utc_rfc3339(
                secs as int,
                nanos as int,
            ),
            None => !is_utc_moment(secs as int, nanos as int),
        },
{
    match chrono::DateTime::from_timestamp(secs, nanos) {
        Some(moment) => Some(moment.to_rfc3339()),
        None => None,
    }
}

} // verus!
