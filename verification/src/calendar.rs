//! Calendar arithmetic, done by `chrono` and the time zone tables of
//! `chrono-tz`, over plain numbers.

use chrono::{DateTime, LocalResult, NaiveDateTime, TimeZone};
use chrono_tz::Tz;
use vstd::prelude::*;

verus! {

/// A date and time of day with no zone attached, counted on a time line
/// without leap seconds from 1970-01-01T00:00:00.
#[derive(Clone, Copy, Debug, PartialEq, Eq, Structural)]
pub struct CivilTime {
    /// Whole seconds since 1970-01-01T00:00:00.
    pub seconds: i64,
    /// Nanoseconds into the second; 1_000_000_000 and more inside a leap second.
    pub nanos: u32,
}

/// The instants, in milliseconds since 1970-01-01T00:00:00 UTC, at which the
/// clocks of a zone show one local time.
#[derive(Clone, Copy, Debug, PartialEq, Eq, Structural)]
pub enum LocalInstant {
    /// The clocks never show that time (they are set forward over it).
    Never,
    /// The clocks show it once.
    Single(i64),
    /// The clocks show it twice (they are set back over it): earlier, later.
    Ambiguous(i64, i64),
}

/// What `NaiveDateTime::parse_from_str` of `chrono` reads from `text` under
/// the strftime-like `format`, as the seconds and nanoseconds of that date
/// and time taken as UTC; `None` where it reports an error.
pub uninterp spec fn naive_datetime_from_str(text: Seq<char>, format: Seq<char>) -> Option<CivilTime>;

/// Whether `name` is a zone of the time zone tables that `chrono-tz` carries.
pub uninterp spec fn zone_is_known(name: Seq<char>) -> bool;

/// The instants, each as its `timestamp_millis()`, that
/// `TimeZone::from_local_datetime` of the `chrono_tz::Tz` named `name` finds
/// for the local date and time `local`; `Never` also where `chrono` cannot
/// represent `local`.
pub uninterp spec fn zone_local_to_utc(name: Seq<char>, local: CivilTime) -> LocalInstant;

/// Calls `chrono::NaiveDateTime::parse_from_str`. The contract names its
/// result and claims only that it depends on the two strings alone. A date
/// and time that was read is handed back as `timestamp()` and
/// `timestamp_subsec_nanos()` of it taken as UTC.
#[verifier::external_body]
pub(crate) fn parse_naive_datetime(text: &str, format: &str) -> (r: Option<CivilTime>)
    ensures
        r == naive_datetime_from_str(text@, format@),
{
    match NaiveDateTime::parse_from_str(text, format) {
        Ok(t) => Some(
            CivilTime { seconds: t.and_utc().timestamp(), nanos: t.and_utc().timestamp_subsec_nanos() },
        ),
        Err(_) => None,
    }
}

/// Calls `<chrono_tz::Tz as FromStr>::from_str`, which looks `name` up among
/// the zone names compiled into `chrono-tz`, and says whether it found one.
#[verifier::external_body]
pub(crate) fn lookup_zone(name: &str) -> (known: bool)
    ensures
        known == zone_is_known(name@),
{
    name.parse::<Tz>().is_ok()
}

/// Calls `TimeZone::from_local_datetime` on the `chrono_tz::Tz` that `name`
/// parses to, with `local` rebuilt by `DateTime::from_timestamp` (which
/// round-trips with the two numbers by its documentation), and hands back
/// `timestamp_millis()` of each instant found. A `local` that `chrono` cannot
/// represent comes back as `Never`. The contract names the result.
#[verifier::external_body]
pub(crate) fn local_to_utc(name: &str, local: CivilTime) -> (r: LocalInstant)
    requires
        zone_is_known(name@),
    ensures
        r == zone_local_to_utc(name@, local),
{
    let tz: Tz = name.parse().unwrap();
    let naive = match DateTime::from_timestamp(local.seconds, local.nanos) {
        Some(t) => t.naive_utc(),
        None => return LocalInstant::Never,
    };
    match tz.from_local_datetime(&naive) {
        LocalResult::None => LocalInstant::Never,
        LocalResult::Single(t) => LocalInstant::Single(t.timestamp_millis()),
        LocalResult::Ambiguous(a, b) => LocalInstant::Ambiguous(
            a.timestamp_millis(),
            b.timestamp_millis(),
        ),
    }
}

} // verus!
