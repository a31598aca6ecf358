//! Proleptic Gregorian date arithmetic: leap years, month lengths and the
//! weekday on which a month begins.

use vstd::prelude::*;

verus! {

/// The error returned when a year, month or day lies outside the calendar.
#[derive(Clone, Copy, Debug, PartialEq, Eq, Structural)]
pub struct InvalidDate;

/// Whether `year` is a leap year under the Gregorian rule: divisible by 4,
/// except centuries, unless divisible by 400.
pub open spec fn spec_is_leap_year(year: int) -> bool {
    (year % 4 == 0 && year % 100 != 0) || year % 400 == 0
}

/// The number of days in `month` of `year`, for `month` in 1..=12.
pub open spec fn spec_days_in_month(month: int, year: int) -> int {
    if month == 2 {
        if spec_is_leap_year(year) {
            29
        } else {
            28
        }
    } else if month == 4 || month == 6 || month == 9 || month == 11 {
        30
    } else {
        31
    }
}

/// Whether `year` is a leap year: divisible by 4, except centuries, unless
/// divisible by 400.
pub fn is_leap_year(year: i32) -> (r: bool)
    requires
        0 <= year,
    ensures
        r == spec_is_leap_year(year as int),
{
    (year % 4 == 0 && year % 100 != 0) || year % 400 == 0
}

/// The number of days in `month` of `year`: 28 to 31, with February
/// lengthened in leap years.
pub fn days_in_month(month: u32, year: i32) -> (r: u32)
    requires
        1 <= month <= 12,
        0 <= year,
    ensures
        r == spec_days_in_month(month as int, year as int),
        28 <= r <= 31,
{
    if month == 2 {
        if is_leap_year(year) {
            29
        } else {
            28
        }
    } else if month == 4 || month == 6 || month == 9 || month == 11 {
        30
    } else {
        31
    }
}

/// The number of days that precede the first of `month` within `year`:
/// the lengths of the months before it, summed.
pub open spec fn spec_days_before_month(month: int, year: int) -> int
    decreases month,
{
    if month <= 1 {
        0
    } else {
        spec_days_before_month(month - 1, year) + spec_days_in_month(month - 1, year)
    }
}

/// The number of leap years among 1..=year-1, for `year >= 1`.
pub open spec fn spec_leap_years_before(year: int) -> int {
    (year - 1) / 4 - (year - 1) / 100 + (year - 1) / 400
}

/// The number of days from the first of January of year 1 to the first of
/// January of `year`.
pub open spec fn spec_days_before_year(year: int) -> int {
    365 * (year - 1) + spec_leap_years_before(year)
}

/// The rank of a date counted from the first of January of year 1, which
/// has rank 0.
pub open spec fn spec_day_index(year: int, month: int, day: int) -> int {
    spec_days_before_year(year) + spec_days_before_month(month, year) + day - 1
}

/// The weekday of a date, with Sunday as 0 and Saturday as 6. The first of
/// January of year 1 is a Monday in the proleptic Gregorian calendar.
pub open spec fn spec_weekday(year: int, month: int, day: int) -> int {
    (spec_day_index(year, month, day) + 1) % 7
}

/// The weekday index of the first of `month` of `year`, with Sunday as 0:
/// how many leading grid cells a month view fills with days of the month
/// before.
pub open spec fn spec_leading_offset(year: int, month: int) -> int {
    spec_weekday(year, month, 1)
}

/// The weekday index (0 = Sunday) of the first of `month` of `year`.
pub fn leading_offset(year: i32, month: u32) -> (r: u32)
    requires
        1 <= year,
        1 <= month <= 12,
    ensures
        r == spec_leading_offset(year as int, month as int),
        r < 7,
{
    let y: u64 = (year as u64) - 1;
    let mut before: u64 = 0;
    let mut k: u32 = 1;
    while k < month
        invariant
            1 <= k <= month,
            month <= 12,
            1 <= year,
            before == spec_days_before_month(k as int, year as int),
            before <= 31 * (k - 1),
        decreases month - k,
    {
        before = before + days_in_month(k, year) as u64;
        k = k + 1;
    }
    let whole_years: u64 = 365 * y;
    proof {
        vstd::arithmetic::div_mod::lemma_div_nonincreasing(y as int, 100);
    }
    let total: u64 = whole_years + y / 4 + y / 400 - y / 100 + before + 1;
    (total % 7) as u32
}

/// The leading offset is a weekday index: at least 0 and below 7.
pub proof fn lemma_leading_offset_bounds(year: int, month: int)
    ensures
        0 <= spec_leading_offset(year, month) < 7,
{
    vstd::arithmetic::div_mod::lemma_mod_bound(spec_day_index(year, month, 1) + 1, 7);
}

/// A (year, month, day) triple under the proleptic Gregorian calendar,
/// with Anno Domini years only.
#[derive(Clone, Copy, Debug, PartialEq, Eq, Structural)]
pub struct CalendarDate {
    /// The year, at least 1.
    pub year: i32,
    /// The month, 1 (January) to 12 (December).
    pub month: u32,
    /// The day of the month, 1 to the month's length.
    pub day: u32,
}

impl CalendarDate {
    /// Whether the triple denotes a real calendar date.
    pub open spec fn valid(self) -> bool {
        &&& 1 <= self.year
        &&& 1 <= self.month <= 12
        &&& 1 <= self.day <= spec_days_in_month(self.month as int, self.year as int)
    }

    /// Builds a date after checking it against the calendar: the month must
    /// exist and the day must exist within that month of that year.
    pub fn new(year: i32, month: u32, day: u32) -> (r: Result<CalendarDate, InvalidDate>)
        ensures
            r is Ok <==> (CalendarDate { year, month, day }).valid(),
            r matches Ok(d) ==> d == (CalendarDate { year, month, day }),
    {
        if year < 1 || month < 1 || month > 12 {
            return Err(InvalidDate);
        }
        let dim = days_in_month(month, year);
        if day < 1 || day > dim {
            return Err(InvalidDate);
        }
        Ok(CalendarDate { year, month, day })
    }
}

} // verus!
