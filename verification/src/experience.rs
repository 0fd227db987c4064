//! Whole years of experience between a start date and an end date (or today).

use vstd::prelude::*;

use chrono::Datelike;

verus! {

/// A moment as a UNIX timestamp: whole seconds since 1970-01-01 00:00 UTC and
/// the nanoseconds past that second.
#[derive(Clone, Copy, Debug)]
pub struct Timestamp {
    pub seconds: i64,
    pub nanos: u32,
}

/// A proleptic Gregorian calendar date.
#[derive(Clone, Copy, Debug)]
pub struct CalendarDate {
    pub year: i32,
    pub month: u32,
    pub day: u32,
}

/// The UTC calendar date of the moment `seconds`/`nanos`, as chrono computes it
/// (`None` when chrono cannot represent the moment).
pub uninterp spec fn utc_calendar_date(seconds: i64, nanos: u32) -> Option<CalendarDate>;

/// Calls `chrono::DateTime::from_timestamp` and `date_naive`, and reads the
/// year, month and day of the date; the contract names the result and states
/// the ranges of month and day that chrono documents.
#[verifier::external_body]
fn calendar_date_of(moment: Timestamp) -> (res: Option<CalendarDate>)
    ensures
        res == utc_calendar_date(moment.seconds, moment.nanos),
        res matches Some(d) ==> 1 <= d.month <= 12 && 1 <= d.day <= 31,
{
    match chrono::DateTime::from_timestamp(moment.seconds, moment.nanos) {
        Some(t) => {
            let d = t.date_naive();
            Some(CalendarDate { year: d.year(), month: d.month(), day: d.day() })
        },
        None => None,
    }
}

/// Calls `chrono::Utc::now`; nothing is stated of the moment it returns. The
/// call panics when the system clock reads before 1970, a condition of the
/// machine that no `requires` can rule out.
#[verifier::external_body]
fn current_moment() -> (res: Timestamp) {
    let now = chrono::Utc::now();
    Timestamp { seconds: now.timestamp(), nanos: now.timestamp_subsec_nanos() }
}

/// Whole years from `base` to `date` (`NaiveDate::years_since`): the
/// difference of the years, one less when `date` falls earlier in its year than
/// `base` does in its; none when `date` comes before `base`.
pub open spec fn whole_years_since(date: CalendarDate, base: CalendarDate) -> Option<u32> {
    let earlier_in_year = date.month < base.month || (date.month == base.month && date.day
        < base.day);
    let years = date.year - base.year - if earlier_in_year {
        1int
    } else {
        0int
    };
    if years >= 0 {
        Some(years as u32)
    } else {
        None
    }
}

/// Whole years from `base` to `date`.
pub fn years_since(date: CalendarDate, base: CalendarDate) -> (res: Option<u32>)
    ensures
        res == whole_years_since(date, base),
{
    let mut years: i64 = date.year as i64 - base.year as i64;
    if date.month < base.month || (date.month == base.month && date.day < base.day) {
        years = years - 1;
    }
    if years >= 0 {
        Some(years as u32)
    } else {
        None
    }
}

/// Whole years of experience from the calendar date of `start` to that of `end`.
pub open spec fn experience_years(start: Timestamp, end: Timestamp) -> Option<u32> {
    match (
        utc_calendar_date(start.seconds, start.nanos),
        utc_calendar_date(end.seconds, end.nanos),
    ) {
        (Some(s), Some(e)) => whole_years_since(e, s),
        _ => None,
    }
}

/// Whole years of experience from `start` to `end`.
pub fn years_of_experience_until(start: Timestamp, end: Timestamp) -> (res: Option<u32>)
    ensures
        res == experience_years(start, end),
{
    match (calendar_date_of(start), calendar_date_of(end)) {
        (Some(s), Some(e)) => years_since(e, s),
        _ => None,
    }
}

/// Whole years of experience from `start` to `end`, or to today when there is
/// no end yet.
pub fn years_of_experience(start: Timestamp, end: Option<Timestamp>) -> (res: Option<u32>)
    ensures
        end matches Some(e) ==> res == experience_years(start, e),
        end is None ==> exists|now: Timestamp| res == #[trigger] experience_years(start, now),
{
    let until = match end {
        Some(e) => e,
        None => current_moment(),
    };
    years_of_experience_until(start, until)
}

/// Whether the day `a` (year, month, day) comes strictly before the day `b`.
pub open spec fn earlier_day(a: (int, int, int), b: (int, int, int)) -> bool {
    a.0 < b.0 || (a.0 == b.0 && (a.1 < b.1 || (a.1 == b.1 && a.2 < b.2)))
}

/// The day `years` years after `date`, as (year, month, day).
pub open spec fn anniversary(date: CalendarDate, years: int) -> (int, int, int) {
    (date.year + years, date.month as int, date.day as int)
}

/// The whole years from `base` to `date` count the anniversaries of `base`
/// that `date` has reached: `y` years after `base` is on or before `date` and
/// `y + 1` years after it is later. There are none exactly when `date` comes
/// before `base`.
pub proof fn lemma_years_are_completed_anniversaries(date: CalendarDate, base: CalendarDate)
    ensures
        whole_years_since(date, base) matches Some(y) ==> !earlier_day(
            anniversary(date, 0),
            anniversary(base, y as int),
        ) && earlier_day(anniversary(date, 0), anniversary(base, y + 1)),
        whole_years_since(date, base) is None <==> earlier_day(
            anniversary(date, 0),
            anniversary(base, 0),
        ),
{
}

/// There are no whole years from `base` to `date` exactly when `date` comes
/// before `base`.
pub proof fn lemma_no_years_before_base(date: CalendarDate, base: CalendarDate)
    ensures
        whole_years_since(date, base) is None <==> (date.year < base.year || (date.year
            == base.year && (date.month < base.month || (date.month == base.month && date.day
            < base.day)))),
{
}

/// From a date to itself there are zero whole years.
pub proof fn lemma_same_date_no_years(date: CalendarDate)
    ensures
        whole_years_since(date, date) == Some(0u32),
{
}

} // verus!
