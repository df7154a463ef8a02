use vstd::prelude::*;

verus! {

/// Relies on chrono's `Utc::now` and `DateTime::timestamp`: the current time,
/// in whole seconds since the Unix epoch. Nothing is known of the value.
#[verifier::external_body]
pub(crate) fn now_seconds() -> (r: i64) {
    chrono::Utc::now().timestamp()
}

/// The number of the day year-month-day in the proleptic Gregorian calendar,
/// with January 1 of year 1 as day 1; `None` when there is no such date (or
/// it lies outside the supported range of years).
pub uninterp spec fn days_from_ce(year: int, month: int, day: int) -> Option<int>;

/// Relies on chrono's `NaiveDate::from_ymd_opt` and
/// `Datelike::num_days_from_ce`: the day number of a calendar date.
#[verifier::external_body]
pub(crate) fn day_number_from_ce(year: i32, month: u32, day: u32) -> (r: Option<i32>)
    ensures
        match r {
            Some(n) => days_from_ce(year as int, month as int, day as int) == Some(n as int) && 1
                <= month <= 12 && 1 <= day <= 31,
            None => days_from_ce(year as int, month as int, day as int) is None,
        },
{
    chrono::NaiveDate::from_ymd_opt(year, month, day).map(|d| chrono::Datelike::num_days_from_ce(&d))
}

/// The number of 1970-01-01 when days are counted from January 1 of year 1
/// (as day 1).
pub const EPOCH_DAYS_FROM_CE: i64 = 719163;

/// The day of year-month-day counted from the Unix epoch (1970-01-01 is
/// day 0).
pub open spec fn epoch_day(year: int, month: int, day: int) -> Option<int> {
    match days_from_ce(year, month, day) {
        Some(n) => Some(n - EPOCH_DAYS_FROM_CE),
        None => None,
    }
}

/// The day of year-month-day counted from the Unix epoch, if that date
/// exists.
pub fn epoch_day_of(year: i32, month: u32, day: u32) -> (r: Option<i64>)
    ensures
        match r {
            Some(d) => epoch_day(year as int, month as int, day as int) == Some(d as int) && 1
                <= month <= 12 && 1 <= day <= 31,
            None => epoch_day(year as int, month as int, day as int) is None,
        },
{
    match day_number_from_ce(year, month, day) {
        Some(n) => Some(n as i64 - EPOCH_DAYS_FROM_CE),
        None => None,
    }
}

} // verus!
