//! What the library takes from outside: fresh identifiers, the time of day,
//! and the arithmetic of the calendar. Nothing here is proved; each contract
//! says what is taken on trust.

use vstd::prelude::*;
use crate::model::{Date, Id, Timestamp, FIRST_DAY, LAST_DAY};

verus! {

/// The current time and the day it falls on.
pub struct Moment {
    pub time: Timestamp,
    pub date: Date,
}

/// The number of the ISO 8601 week that the day with this day number falls
/// in, as `chrono` computes it.
pub uninterp spec fn iso_week_of(days: int) -> int;

/// A new identifier from `uuid::Uuid::now_v7`, handed out as the 128-bit
/// value that `Uuid::as_u128` gives. Taken on trust: the identifier is of
/// version 7. Nothing is claimed of its time and random bits, so to the
/// verifier two calls may return the same identifier. `Uuid::now_v7` stops
/// the program where the system clock stands before 1970.
#[verifier::external_body]
pub(crate) fn fresh_id() -> (id: Id)
    ensures
        id.version_of() == 7,
{
    Id(uuid::Uuid::now_v7().as_u128())
}

/// The current time from `chrono::Utc::now`: the seconds and nanoseconds
/// that `timestamp` and `timestamp_subsec_nanos` give for it, and the day
/// number of its `date_naive`. Taken on trust: the day lies within the
/// calendar, as every `NaiveDate` does. Nothing is claimed of the time.
/// `Utc::now` stops the program where the system clock stands before 1970.
#[verifier::external_body]
pub(crate) fn now() -> (m: Moment)
    ensures
        m.date.in_calendar(),
{
    let at = chrono::Utc::now();
    Moment {
        time: Timestamp { secs: at.timestamp(), nanos: at.timestamp_subsec_nanos() },
        date: Date { days: chrono::Datelike::num_days_from_ce(&at.date_naive()) },
    }
}

/// The first day of the week of `date`, weeks starting on Monday, from
/// `chrono::NaiveDate::week` and `NaiveWeek::checked_first_day`. The day
/// goes in through `NaiveDate::from_num_days_from_ce_opt` and comes out
/// through `Datelike::num_days_from_ce`. Taken on trust: the result is the
/// Monday on or before the day, and it is there exactly where both the day
/// and that Monday lie within the calendar.
#[verifier::external_body]
pub(crate) fn week_start(date: Date) -> (r: Option<Date>)
    ensures
        match r {
            Some(first) => date.in_calendar() && first.in_calendar() && first.days
                == date.monday(),
            None => !(date.in_calendar() && FIRST_DAY <= date.monday()),
        },
{
    let day = chrono::NaiveDate::from_num_days_from_ce_opt(date.days)?;
    let first = day.week(chrono::Weekday::Mon).checked_first_day()?;
    Some(Date { days: chrono::Datelike::num_days_from_ce(&first) })
}

/// The day `count` days after `date`, from
/// `chrono::NaiveDate::checked_add_days`. The day goes in through
/// `NaiveDate::from_num_days_from_ce_opt` and comes out through
/// `Datelike::num_days_from_ce`. Taken on trust: the result is there
/// exactly where both days lie within the calendar, and its day number is
/// the sum.
#[verifier::external_body]
pub(crate) fn days_after(date: Date, count: u64) -> (r: Option<Date>)
    ensures
        match r {
            Some(later) => date.in_calendar() && later.in_calendar() && later.days == date.days
                + count,
            None => !(date.in_calendar() && date.days + count <= LAST_DAY),
        },
{
    let day = chrono::NaiveDate::from_num_days_from_ce_opt(date.days)?;
    let later = day.checked_add_days(chrono::Days::new(count))?;
    Some(Date { days: chrono::Datelike::num_days_from_ce(&later) })
}

/// The number of the ISO 8601 week of `date`, from
/// `chrono::Datelike::iso_week` and `IsoWeek::week`. The day goes in through
/// `NaiveDate::from_num_days_from_ce_opt`. Taken on trust: the result is
/// there exactly where the day lies within the calendar, it depends on the
/// day alone, and it lies between 1 and 53.
#[verifier::external_body]
pub(crate) fn iso_week(date: Date) -> (r: Option<u32>)
    ensures
        match r {
            Some(week) => date.in_calendar() && week == iso_week_of(date.days as int) && 1 <= week
                <= 53,
            None => !date.in_calendar(),
        },
{
    let day = chrono::NaiveDate::from_num_days_from_ce_opt(date.days)?;
    Some(chrono::Datelike::iso_week(&day).week())
}

} // verus!
