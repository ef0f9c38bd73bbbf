//! Points in time with a fixed offset from UTC, read and written by `chrono`.
use chrono::DateTime;
use chrono::FixedOffset;
use vstd::prelude::*;

verus! {

/// How the date of a header is written: `2025-09-14-19:30:11.018+01:00`.
pub const DATE_FORMAT: &'static str = "%Y-%m-%d-%H:%M:%S%.3f%:z";

/// A point in time together with the offset of the clock that showed it.
///
/// The instant is kept as `chrono` counts it: whole seconds since
/// 1970-01-01T00:00:00 UTC, leap seconds not counted, and the nanoseconds
/// into that second, which pass 999,999,999 only inside a leap second.
#[derive(Clone, Copy, Debug, PartialEq, Eq, Structural)]
pub struct Timestamp {
    /// Seconds since the epoch, in UTC.
    pub secs: i64,
    /// Nanoseconds into the second.
    pub nanos: u32,
    /// Seconds that local time is ahead of UTC.
    pub offset: i32,
}

/// What `DateTime::parse_from_str` makes of `text` under `format`: nothing
/// where it reports an error, else the seconds, nanoseconds and offset of the
/// date it read.
pub uninterp spec fn date_parsed(text: Seq<char>, format: Seq<char>) -> Option<(i64, u32, i32)>;

/// What `DateTime::format` writes for the instant `secs`, `nanos` shown at
/// `offset` under `format`: nothing where `chrono` has no such date or
/// cannot write it that way.
pub uninterp spec fn date_written(secs: i64, nanos: u32, offset: i32, format: Seq<char>) -> Option<
    Seq<char>,
>;

/// Reads a date with `DateTime::parse_from_str`. The outcome depends on the
/// two texts alone. A date that was read is handed back as the three numbers
/// that `timestamp`, `timestamp_subsec_nanos` and
/// `FixedOffset::local_minus_utc` return for it. The claim is made for the
/// one format of this library.
#[verifier::external_body]
pub(crate) fn parse_date(text: &str, format: &str) -> (r: Option<Timestamp>)
    requires
        format@ == DATE_FORMAT@,
    ensures
        match r {
            Some(t) => date_parsed(text@, format@) == Some((t.secs, t.nanos, t.offset)),
            None => date_parsed(text@, format@) is None,
        },
{
    match DateTime::parse_from_str(text, format) {
        Ok(date) => Some(
            Timestamp {
                secs: date.timestamp(),
                nanos: date.timestamp_subsec_nanos(),
                offset: date.offset().local_minus_utc(),
            },
        ),
        Err(_) => None,
    }
}

/// Writes a date with `DateTime::format`. The date is rebuilt with
/// `DateTime::from_timestamp` and `FixedOffset::east_opt`; where either
/// refuses the numbers, or the format cannot be written, the answer is
/// `None`. The outcome depends on the numbers and the format alone. The
/// claim is made for the one format of this library.
#[verifier::external_body]
pub(crate) fn format_date(t: Timestamp, format: &str) -> (r: Option<String>)
    requires
        format@ == DATE_FORMAT@,
    ensures
        match r {
            Some(text) => date_written(t.secs, t.nanos, t.offset, format@) == Some(text@),
            None => date_written(t.secs, t.nanos, t.offset, format@) is None,
        },
{
    let utc = DateTime::from_timestamp(t.secs, t.nanos)?;
    let zone = FixedOffset::east_opt(t.offset)?;
    let mut text = String::new();
    match utc.with_timezone(&zone).format(format).write_to(&mut text) {
        Ok(()) => Some(text),
        Err(_) => None,
    }
}

} // verus!
