use vstd::prelude::*;
use chrono::{Datelike, TimeZone, Utc};

verus! {

/// Earliest instant the calendar accepts: the Unix epoch.
pub const MIN_TS: i64 = 0;

/// Latest instant the calendar accepts: the last second of year 9999.
pub const MAX_TS: i64 = 253402300799;

/// The calendar year, in UTC, of an instant given in seconds since the
/// epoch.  The value is whatever chrono's `Datelike::year` reads off the
/// converted date.
pub uninterp spec fn year_of(ts: int) -> int;

/// The calendar month (1 to 12), in UTC, of an instant given in seconds
/// since the epoch.  The value is whatever chrono's `Datelike::month`
/// reads off the converted date.
pub uninterp spec fn month_of(ts: int) -> int;

/// The first instant (in seconds since the epoch) of calendar month `m`
/// of year `y`, in UTC: what chrono's `with_ymd_and_hms(y, m, 1, 0, 0, 0)`
/// constructs.
pub uninterp spec fn month_start(y: int, m: int) -> int;

/// The month index orders calendar months totally: one unit per month,
/// twelve per year.
pub open spec fn month_index(y: int, m: int) -> int {
    12 * y + m
}

/// The year holding the month after month `m` of year `y`.
pub open spec fn next_month_year(y: int, m: int) -> int {
    if m == 12 {
        y + 1
    } else {
        y
    }
}

/// The month after month `m` of year `y`, as a month number.
pub open spec fn next_month(y: int, m: int) -> int {
    if m == 12 {
        1
    } else {
        m + 1
    }
}

/// Relies on chrono's `Utc::now` for the wall clock.  Nothing is promised
/// of the value: it depends on the machine's clock.
#[verifier::external_body]
pub(crate) fn now_ts() -> i64 {
    Utc::now().timestamp()
}

/// Relies on chrono: converts seconds since the epoch to a UTC date
/// (`TimeZone::timestamp_opt`, infallible for the accepted range) and
/// reads `Datelike::year`, which is within 1970..=9999 for that range.
#[verifier::external_body]
pub(crate) fn year_of_ts(ts: i64) -> (r: i32)
    requires
        MIN_TS <= ts <= MAX_TS,
    ensures
        r as int == year_of(ts as int),
        1970 <= r <= 9999,
{
    Utc.timestamp_opt(ts, 0).unwrap().year()
}

/// Relies on chrono: converts seconds since the epoch to a UTC date
/// (`TimeZone::timestamp_opt`, infallible for the accepted range) and
/// reads `Datelike::month`, documented to lie in 1..=12.
#[verifier::external_body]
pub(crate) fn month_of_ts(ts: i64) -> (r: u32)
    requires
        MIN_TS <= ts <= MAX_TS,
    ensures
        r as int == month_of(ts as int),
        1 <= r <= 12,
{
    Utc.timestamp_opt(ts, 0).unwrap().month()
}

/// Relies on chrono's `TimeZone::with_ymd_and_hms` at day 1, midnight:
/// the first instant of month `m` of year `y` in UTC.  The clauses state
/// what makes it the first instant: the result falls inside month (y, m),
/// every instant of an earlier calendar month lies strictly before it,
/// and every instant of month (y, m) or a later month lies at or after
/// it.  The months admitted run from January 1970 to January 10000, so
/// the result is within the accepted range, extended by one second for
/// the start of year 10000.
#[verifier::external_body]
pub(crate) fn month_start_of(y: i32, m: u32) -> (r: i64)
    requires
        1 <= m <= 12,
        1970 <= y <= 9999 || (y == 10000 && m == 1),
    ensures
        r as int == month_start(y as int, m as int),
        year_of(r as int) == y as int,
        month_of(r as int) == m as int,
        MIN_TS <= r as int <= MAX_TS as int + 1,
        forall|t: i64|
            MIN_TS <= t <= MAX_TS && month_index(year_of(t as int), month_of(t as int))
                < month_index(y as int, m as int) ==> t < r,
        forall|t: i64|
            MIN_TS <= t <= MAX_TS && month_index(year_of(t as int), month_of(t as int))
                >= month_index(y as int, m as int) ==> r <= t,
{
    Utc.with_ymd_and_hms(y, m, 1, 0, 0, 0).unwrap().timestamp()
}

} // verus!
