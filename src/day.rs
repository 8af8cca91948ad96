use vstd::prelude::*;
use chrono::Datelike;
use chrono::NaiveDate;

verus! {

/// The earliest year that a calendar day may have.
pub const MIN_YEAR: i32 = -262143;

/// The latest year that a calendar day may have.
pub const MAX_YEAR: i32 = 262142;

/// A calendar day of the proleptic Gregorian calendar.
#[derive(Debug, Clone, Copy, PartialEq, Eq, Structural)]
pub struct Day {
    pub year: i32,
    pub month: u32,
    pub day: u32,
}

/// Leap years of the proleptic Gregorian calendar.
pub open spec fn is_leap_year(y: int) -> bool {
    y % 4 == 0 && (y % 100 != 0 || y % 400 == 0)
}

/// The number of days in month `m` (1 to 12) of year `y`.
pub open spec fn days_in_month(y: int, m: int) -> int {
    if m == 2 {
        if is_leap_year(y) {
            29
        } else {
            28
        }
    } else if m == 4 || m == 6 || m == 9 || m == 11 {
        30
    } else {
        31
    }
}

/// Whether year, month and day name an existing day within the supported years.
pub open spec fn is_valid_date(y: int, m: int, d: int) -> bool {
    &&& MIN_YEAR <= y <= MAX_YEAR
    &&& 1 <= m <= 12
    &&& 1 <= d <= days_in_month(y, m)
}

/// The calendar day before `d`, or `None` for the first day of the earliest year.
pub open spec fn day_before(d: Day) -> Option<Day> {
    if d.day > 1 {
        Some(Day { year: d.year, month: d.month, day: (d.day - 1) as u32 })
    } else if d.month > 1 {
        Some(
            Day {
                year: d.year,
                month: (d.month - 1) as u32,
                day: days_in_month(d.year as int, d.month - 1) as u32,
            },
        )
    } else if d.year > MIN_YEAR {
        Some(Day { year: (d.year - 1) as i32, month: 12, day: 31 })
    } else {
        None
    }
}

impl Day {
    /// Whether this value names an existing calendar day.
    pub open spec fn wf(self) -> bool {
        is_valid_date(self.year as int, self.month as int, self.day as int)
    }

    /// The day with the given year, month (1 to 12) and day of month, if it exists.
    pub fn from_ymd(year: i32, month: u32, day: u32) -> (r: Option<Day>)
        ensures
            r is Some <==> is_valid_date(year as int, month as int, day as int),
            r matches Some(d) ==> d == (Day { year, month, day }),
    {
        if date_exists(year, month, day) {
            Some(Day { year, month, day })
        } else {
            None
        }
    }

    /// The calendar day before this one; `None` only for the first supported day.
    pub fn prev(self) -> (r: Option<Day>)
        requires
            self.wf(),
        ensures
            r == day_before(self),
            r matches Some(p) ==> p.wf(),
    {
        let r = previous_date(self);
        proof {
            if self.month > 1 && self.day == 1 {
                assert(1 <= days_in_month(self.year as int, self.month - 1) <= 31);
            }
        }
        r
    }
}

/// Relies on chrono's `NaiveDate::from_ymd_opt`, which gives a date exactly when the
/// month and day exist in that year of the proleptic Gregorian calendar and the year
/// lies within chrono's supported range.
#[verifier::external_body]
fn date_exists(year: i32, month: u32, day: u32) -> (r: bool)
    ensures
        r == is_valid_date(year as int, month as int, day as int),
{
    NaiveDate::from_ymd_opt(year, month, day).is_some()
}

/// Relies on chrono's `NaiveDate::pred_opt`: the previous calendar date, and `None`
/// only for the first representable date.
#[verifier::external_body]
fn previous_date(d: Day) -> (r: Option<Day>)
    requires
        d.wf(),
    ensures
        r == day_before(d),
{
    match NaiveDate::from_ymd_opt(d.year, d.month, d.day) {
        Some(n) => match n.pred_opt() {
            Some(p) => Some(Day { year: p.year(), month: p.month(), day: p.day() }),
            None => None,
        },
        None => None,
    }
}

} // verus!
