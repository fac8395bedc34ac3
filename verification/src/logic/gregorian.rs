//! The proleptic Gregorian calendar as plain integer arithmetic.
//!
//! Dates are counted in days, with January 1 of year 1 as day 1; year 0 is
//! the year before year 1, and the leap-year rule is extended backwards
//! without change. Everything here is ghost code: the dates the program
//! handles are computed elsewhere, and this module says what they mean.
//!
//! The day number of a date is given by a closed formula and proved to count
//! the days of the calendar: January 1 of year 1 has number 1
//! ([`lemma_known_day_numbers`]), and every date has the number of the day
//! before it and one more ([`lemma_next_date`]). The weekday of a day follows
//! from its number, day 1 being a Monday.

use vstd::prelude::*;

verus! {

/// The earliest year a date of this library can lie in: the first year of
/// which `chrono` holds a date.
pub const MIN_YEAR: i32 = -262143;

/// The latest year a date of this library can lie in: the last year of which
/// `chrono` holds a date.
pub const MAX_YEAR: i32 = 262142;

/// Whether `year` has a February 29.
pub open spec fn is_leap_year(year: int) -> bool {
    year % 4 == 0 && (year % 100 != 0 || year % 400 == 0)
}

/// The number of days in `year`.
pub open spec fn days_in_year(year: int) -> int {
    if is_leap_year(year) {
        366
    } else {
        365
    }
}

/// The number of days in `month` of `year`; 0 when `month` is not a month.
pub open spec fn days_in_month(year: int, month: int) -> int {
    if month == 2 {
        if is_leap_year(year) {
            29
        } else {
            28
        }
    } else if month == 4 || month == 6 || month == 9 || month == 11 {
        30
    } else if 1 <= month <= 12 {
        31
    } else {
        0
    }
}

/// The number of days in all years from year 1 up to, but without, `year`
/// (negative for years before year 1).
pub open spec fn days_before_year(year: int) -> int {
    let past = year - 1;
    365 * past + past / 4 - past / 100 + past / 400
}

/// The number of days of `year` that lie before the first of `month`.
pub open spec fn days_before_month(year: int, month: int) -> int
    decreases month,
{
    if month <= 1 {
        0
    } else {
        days_before_month(year, month - 1) + days_in_month(year, month - 1)
    }
}

/// A calendar date as three mathematical integers.
pub struct Ymd {
    pub year: int,
    pub month: int,
    pub day: int,
}

impl Ymd {
    /// Whether the month exists and the day exists in that month.
    pub open spec fn is_calendar_date(self) -> bool {
        1 <= self.month <= 12 && 1 <= self.day <= days_in_month(self.year, self.month)
    }

    /// Whether this is a calendar date in a year the library can hold.
    pub open spec fn is_representable(self) -> bool {
        self.is_calendar_date() && MIN_YEAR <= self.year <= MAX_YEAR
    }

    /// The day number of the date: January 1 of year 1 is day 1.
    pub open spec fn day_number(self) -> int {
        days_before_year(self.year) + days_before_month(self.year, self.month) + self.day
    }

    /// The day of the week, counted from Sunday = 0 to Saturday = 6.
    pub open spec fn days_from_sunday(self) -> int {
        weekday_of_day_number(self.day_number())
    }

    /// Whether this date comes earlier in the calendar than `other`.
    pub open spec fn is_before(self, other: Ymd) -> bool {
        self.year < other.year || (self.year == other.year && (self.month < other.month || (
        self.month == other.month && self.day < other.day)))
    }
}

/// The day of the week of a day number, counted from Sunday = 0: day 1 is a
/// Monday.
pub open spec fn weekday_of_day_number(day_number: int) -> int {
    day_number % 7
}

/// The day number of the first date the library can hold.
pub open spec fn min_day_number() -> int {
    (Ymd { year: MIN_YEAR as int, month: 1, day: 1 }).day_number()
}

/// The day number of the last date the library can hold.
pub open spec fn max_day_number() -> int {
    (Ymd { year: MAX_YEAR as int, month: 12, day: 31 }).day_number()
}

/// A year is 365 days long, or 366 when it is a leap year.
pub proof fn lemma_year_length(year: int)
    ensures
        days_before_year(year + 1) == days_before_year(year) + days_in_year(year),
{
}

/// The days before each month, written out.
pub proof fn lemma_days_before_month_table(year: int)
    ensures
        days_before_month(year, 1) == 0,
        days_before_month(year, 2) == 31,
        days_before_month(year, 3) == days_in_year(year) - 306,
        days_before_month(year, 4) == days_in_year(year) - 275,
        days_before_month(year, 5) == days_in_year(year) - 245,
        days_before_month(year, 6) == days_in_year(year) - 214,
        days_before_month(year, 7) == days_in_year(year) - 184,
        days_before_month(year, 8) == days_in_year(year) - 153,
        days_before_month(year, 9) == days_in_year(year) - 122,
        days_before_month(year, 10) == days_in_year(year) - 92,
        days_before_month(year, 11) == days_in_year(year) - 61,
        days_before_month(year, 12) == days_in_year(year) - 31,
        days_before_month(year, 13) == days_in_year(year),
{
    reveal_with_fuel(days_before_month, 14);
}

/// Later years begin on later days: each year in between adds at least 365.
pub proof fn lemma_days_before_year_grows(earlier: int, later: int)
    requires
        earlier <= later,
    ensures
        days_before_year(later) - days_before_year(earlier) >= 365 * (later - earlier),
        days_before_year(later) - days_before_year(earlier) <= 366 * (later - earlier),
    decreases later - earlier,
{
    if earlier < later {
        lemma_days_before_year_grows(earlier, later - 1);
        lemma_year_length(later - 1);
    }
}

/// The day number orders calendar dates as the calendar does.
pub proof fn lemma_day_number_orders(a: Ymd, b: Ymd)
    requires
        a.is_calendar_date(),
        b.is_calendar_date(),
    ensures
        a.is_before(b) <==> a.day_number() < b.day_number(),
        a == b <==> a.day_number() == b.day_number(),
{
    lemma_days_before_month_table(a.year);
    lemma_days_before_month_table(b.year);
    if a.year < b.year {
        lemma_days_before_year_grows(a.year + 1, b.year);
        lemma_year_length(a.year);
    } else if b.year < a.year {
        lemma_days_before_year_grows(b.year + 1, a.year);
        lemma_year_length(b.year);
    }
}

/// The day after a calendar date: the next day of the month, else the first
/// of the next month, else January 1 of the next year.
pub open spec fn next_date(date: Ymd) -> Ymd {
    if date.day < days_in_month(date.year, date.month) {
        Ymd { year: date.year, month: date.month, day: date.day + 1 }
    } else if date.month < 12 {
        Ymd { year: date.year, month: date.month + 1, day: 1 }
    } else {
        Ymd { year: date.year + 1, month: 1, day: 1 }
    }
}

/// The day after a calendar date is a calendar date, and its day number is
/// one more: with day 1 fixed, the day numbers count the days of the calendar.
pub proof fn lemma_next_date(date: Ymd)
    requires
        date.is_calendar_date(),
    ensures
        next_date(date).is_calendar_date(),
        next_date(date).day_number() == date.day_number() + 1,
{
    lemma_days_before_month_table(date.year);
    lemma_year_length(date.year);
    lemma_days_before_month_table(date.year + 1);
}

/// A calendar date is representable exactly when its day number lies between
/// those of the first and the last representable date.
pub proof fn lemma_representable_range(date: Ymd)
    requires
        date.is_calendar_date(),
    ensures
        date.is_representable() <==> min_day_number() <= date.day_number() <= max_day_number(),
{
    let first = Ymd { year: MIN_YEAR as int, month: 1, day: 1 };
    let last = Ymd { year: MAX_YEAR as int, month: 12, day: 31 };
    lemma_day_number_orders(first, date);
    lemma_day_number_orders(date, last);
}

/// Day 1 is January 1 of year 1; and the first and the last date that can be
/// held, as numbers.
pub proof fn lemma_known_day_numbers()
    ensures
        (Ymd { year: 1, month: 1, day: 1 }).day_number() == 1,
        min_day_number() == -95746129,
        max_day_number() == 95745399,
{
    lemma_days_before_month_table(1);
    lemma_days_before_month_table(MIN_YEAR as int);
    lemma_days_before_month_table(MAX_YEAR as int);
}

} // verus!
