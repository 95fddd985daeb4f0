//! Points in time and calendar text, through the `chrono` and `chrono-tz`
//! crates.

use vstd::prelude::*;
use vstd::string::*;
use chrono::TimeZone;

verus! {

#[verifier::external_type_specification]
#[verifier::external_body]
pub struct ExTz(chrono_tz::Tz);

#[verifier::external_type_specification]
#[verifier::external_body]
pub struct ExNaiveDateTime(chrono::NaiveDateTime);

/// A point in time: whole seconds since the Unix epoch and the nanoseconds
/// past them (at least 1_000_000_000 only within a leap second).
#[derive(Debug, Clone, Copy, PartialEq, Eq, Structural)]
pub struct Instant {
    pub secs: i64,
    pub nanos: u32,
}

/// `a` is not later than `b`.
pub open spec fn not_after(a: Instant, b: Instant) -> bool {
    a.secs < b.secs || (a.secs == b.secs && a.nanos <= b.nanos)
}

pub fn instant_not_after(a: Instant, b: Instant) -> (r: bool)
    ensures
        r == not_after(a, b),
{
    a.secs < b.secs || (a.secs == b.secs && a.nanos <= b.nanos)
}

/// What `DateTime::parse_from_rfc3339` gives for the text, as an instant.
pub uninterp spec fn rfc3339_instant_of(s: Seq<char>) -> Option<Instant>;

/// What `NaiveDateTime::parse_from_str` gives for the text and format.
pub uninterp spec fn naive_datetime_of(s: Seq<char>, fmt: Seq<char>) -> Option<chrono::NaiveDateTime>;

/// The single instant at which the zone's wall clock shows the given date
/// and time (`from_local_datetime(..).single()`).
pub uninterp spec fn local_instant_of(n: chrono::NaiveDateTime, tz: chrono_tz::Tz) -> Option<Instant>;

/// What `NaiveDateTime::format(fmt).to_string()` gives.
pub uninterp spec fn formatted_of(n: chrono::NaiveDateTime, fmt: Seq<char>) -> Seq<char>;

/// Calls `DateTime::parse_from_rfc3339` and takes the instant of the
/// result (seconds since the epoch and sub-second nanoseconds). The RFC 3339
/// grammar is named, not stated.
#[verifier::external_body]
pub(crate) fn parse_rfc3339(s: &str) -> (r: Option<Instant>)
    ensures
        r == rfc3339_instant_of(s@),
{
    chrono::DateTime::parse_from_rfc3339(s).ok().map(
        |dt| Instant { secs: dt.timestamp(), nanos: dt.timestamp_subsec_nanos() },
    )
}

/// Calls `NaiveDateTime::parse_from_str`; its error becomes `None`.
#[verifier::external_body]
pub(crate) fn parse_naive(s: &str, fmt: &str) -> (r: Option<chrono::NaiveDateTime>)
    ensures
        r == naive_datetime_of(s@, fmt@),
{
    chrono::NaiveDateTime::parse_from_str(s, fmt).ok()
}

/// Calls `TimeZone::from_local_datetime` on the zone and keeps a single
/// result (none for a wall time that is skipped or repeated), as an
/// instant.
#[verifier::external_body]
pub(crate) fn localize(n: &chrono::NaiveDateTime, tz: chrono_tz::Tz) -> (r: Option<Instant>)
    ensures
        r == local_instant_of(*n, tz),
{
    tz.from_local_datetime(n).single().map(|dt| Instant { secs: dt.timestamp(), nanos: dt.timestamp_subsec_nanos() })
}

/// Calls `NaiveDateTime::format` and renders it. Rendering fails (and the
/// call panics) only for a malformed format, so only the formats this
/// library uses are admitted.
#[verifier::external_body]
pub(crate) fn format_wall_clock(n: &chrono::NaiveDateTime, fmt: &str) -> (r: String)
    requires
        fmt@ == "%Y-%m-%d"@ || fmt@ == "%Y-%m-%d %H"@ || fmt@ == "%Y-%m-%d %H:%M"@,
    ensures
        r@ == formatted_of(*n, fmt@),
{
    n.format(fmt).to_string()
}

} // verus!
