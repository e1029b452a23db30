use chrono::Datelike;
use vstd::prelude::*;

verus! {

/// Nanoseconds in one second.
pub const NANOS_PER_SEC: i128 = 1_000_000_000;

/// Nanoseconds in one day.
pub const NANOS_PER_DAY: i128 = 86_400_000_000_000;

/// A point in time: whole seconds since the Unix epoch, and the nanoseconds
/// past that second (past 999,999,999 only during a leap second).
#[derive(Debug, Clone, Copy)]
pub struct Instant {
    pub secs: i64,
    pub nanos: u32,
}

impl Instant {
    pub open spec fn wf(self) -> bool {
        self.nanos < 2 * NANOS_PER_SEC
    }

    /// Nanoseconds since the Unix epoch.
    pub open spec fn total_nanos(self) -> int {
        self.secs * NANOS_PER_SEC + self.nanos
    }
}

/// Nanoseconds from `earlier` to `later` (negative when `earlier` is later).
pub open spec fn nanos_between(later: Instant, earlier: Instant) -> int {
    later.total_nanos() - earlier.total_nanos()
}

/// What `NaiveDate::parse_from_str` reads from a text in a format, as a day
/// number (day 1 is January 1 of year 1); `None` where it does not parse.
pub uninterp spec fn calendar_day_of(text: Seq<char>, format: Seq<char>) -> Option<int>;

/// What `DateTime::parse_from_rfc3339` reads from a text, as seconds since the
/// Unix epoch and nanoseconds past that second; `None` where it does not parse.
pub uninterp spec fn rfc3339_instant_of(text: Seq<char>) -> Option<(int, int)>;

/// Relies on `chrono::NaiveDate::parse_from_str` and `Datelike::num_days_from_ce`:
/// the day written in `text` following `format`, or `None`.
#[verifier::external_body]
pub(crate) fn parse_calendar_day(text: &str, format: &str) -> (r: Option<i32>)
    ensures
        match r {
            Some(d) => calendar_day_of(text@, format@) == Some(d as int),
            None => calendar_day_of(text@, format@).is_none(),
        },
{
    chrono::NaiveDate::parse_from_str(text, format).ok().map(|d| d.num_days_from_ce())
}

/// Relies on `chrono::DateTime::parse_from_rfc3339`, `timestamp` and
/// `timestamp_subsec_nanos`: the instant written in `text`, or `None`.
#[verifier::external_body]
pub(crate) fn parse_rfc3339(text: &str) -> (r: Option<Instant>)
    ensures
        match r {
            Some(t) => rfc3339_instant_of(text@) == Some((t.secs as int, t.nanos as int)) && t.wf(),
            None => rfc3339_instant_of(text@).is_none(),
        },
{
    chrono::DateTime::parse_from_rfc3339(text).ok().map(
        |t| Instant { secs: t.timestamp(), nanos: t.timestamp_subsec_nanos() },
    )
}

/// Relies on `chrono::Local::now`: today's day number in the local calendar.
#[verifier::external_body]
pub(crate) fn local_today() -> (r: i32) {
    chrono::Local::now().date_naive().num_days_from_ce()
}

/// Relies on `chrono::Utc::now`: the current instant.
#[verifier::external_body]
pub(crate) fn utc_now() -> (r: Instant)
    ensures
        r.wf(),
{
    let t = chrono::Utc::now();
    Instant { secs: t.timestamp(), nanos: t.timestamp_subsec_nanos() }
}

/// Nanoseconds from `earlier` to `later` (negative when `earlier` is later).
pub fn nanos_elapsed(later: Instant, earlier: Instant) -> (r: i128)
    ensures
        r as int == nanos_between(later, earlier),
{
    (later.secs as i128 - earlier.secs as i128) * NANOS_PER_SEC + later.nanos as i128
        - earlier.nanos as i128
}

} // verus!
