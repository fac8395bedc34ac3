//! Calendar dates and the days of the week.
//!
//! A [`CalendarDate`] holds a year, a month and a day that exist in the
//! proleptic Gregorian calendar. What can be asked of a date (whether it
//! exists, its weekday, the day before, the date some days or months away) is
//! answered by `chrono`; the private functions at the end of this file make
//! those calls, and their contracts, which are not proved, say over
//! [`crate::logic::gregorian`] what `chrono` is relied on to return.

use crate::logic::gregorian::{
    days_before_month, days_before_year, days_in_month, is_leap_year, lemma_day_number_orders,
    lemma_days_before_month_table, lemma_known_day_numbers, lemma_representable_range, max_day_number,
    min_day_number, Ymd, MAX_YEAR, MIN_YEAR,
};
use chrono::{Datelike, Months, NaiveDate, TimeDelta};
use vstd::prelude::*;

verus! {

/// The date with the given year, month and day, as mathematical integers.
pub open spec fn ymd(year: int, month: int, day: int) -> Ymd {
    Ymd { year, month, day }
}

/// A day of the week.
#[derive(Clone, Copy, Debug, PartialEq, Eq, Structural)]
pub enum Weekday {
    Mon,
    Tue,
    Wed,
    Thu,
    Fri,
    Sat,
    Sun,
}

impl Weekday {
    /// The number of days since the last Sunday: Sunday is 0, Saturday is 6.
    pub open spec fn days_from_sunday(self) -> int {
        match self {
            Weekday::Sun => 0,
            Weekday::Mon => 1,
            Weekday::Tue => 2,
            Weekday::Wed => 3,
            Weekday::Thu => 4,
            Weekday::Fri => 5,
            Weekday::Sat => 6,
        }
    }

    /// The number of days since the last Sunday: Sunday is 0, Saturday is 6.
    pub fn num_days_from_sunday(&self) -> (n: u32)
        ensures
            n == self.days_from_sunday(),
    {
        match self {
            Weekday::Sun => 0,
            Weekday::Mon => 1,
            Weekday::Tue => 2,
            Weekday::Wed => 3,
            Weekday::Thu => 4,
            Weekday::Fri => 5,
            Weekday::Sat => 6,
        }
    }

    /// The weekday that lies `n` days after a Sunday, or `None` when `n` is
    /// 7 or more.
    pub fn from_days_from_sunday(n: u32) -> (r: Option<Weekday>)
        ensures
            match r {
                Some(weekday) => n < 7 && weekday.days_from_sunday() == n,
                None => n >= 7,
            },
    {
        if n == 0 {
            Some(Weekday::Sun)
        } else if n == 1 {
            Some(Weekday::Mon)
        } else if n == 2 {
            Some(Weekday::Tue)
        } else if n == 3 {
            Some(Weekday::Wed)
        } else if n == 4 {
            Some(Weekday::Thu)
        } else if n == 5 {
            Some(Weekday::Fri)
        } else if n == 6 {
            Some(Weekday::Sat)
        } else {
            None
        }
    }
}

/// A date of the proleptic Gregorian calendar, in a year from [`MIN_YEAR`]
/// to [`MAX_YEAR`]. Every value of this type is such a date.
#[derive(Clone, Copy, Debug, PartialEq, Eq, Structural)]
pub struct CalendarDate {
    year: i32,
    month: u32,
    day: u32,
}

impl View for CalendarDate {
    type V = Ymd;

    closed spec fn view(&self) -> Ymd {
        ymd(self.year as int, self.month as int, self.day as int)
    }
}

impl CalendarDate {
    /// What holds of every date: it exists in the calendar, in a year that
    /// can be held.
    #[verifier::type_invariant]
    pub open spec fn is_valid(self) -> bool {
        self@.is_representable()
    }

    /// The date with the given year, month and day, if there is one:
    /// `None` when the month or the day does not exist, or the year lies
    /// outside [`MIN_YEAR`] to [`MAX_YEAR`].
    pub fn from_ymd_opt(year: i32, month: u32, day: u32) -> (r: Option<CalendarDate>)
        ensures
            match r {
                Some(date) => date@ == ymd(year as int, month as int, day as int)
                    && date.is_valid(),
                None => !ymd(year as int, month as int, day as int).is_representable(),
            },
    {
        if chrono_has_date(year, month, day) {
            Some(CalendarDate { year, month, day })
        } else {
            None
        }
    }

    /// The year.
    pub fn year(&self) -> (year: i32)
        ensures
            year == self@.year,
            self.is_valid(),
    {
        proof {
            use_type_invariant(self);
        }
        self.year
    }

    /// The month, from 1 to 12.
    pub fn month(&self) -> (month: u32)
        ensures
            month == self@.month,
            self.is_valid(),
    {
        proof {
            use_type_invariant(self);
        }
        self.month
    }

    /// The day of the month, from 1.
    pub fn day(&self) -> (day: u32)
        ensures
            day == self@.day,
            self.is_valid(),
    {
        proof {
            use_type_invariant(self);
        }
        self.day
    }

    /// The day number of the date: January 1 of year 1 is day 1.
    pub fn num_days_from_ce(&self) -> (n: i32)
        ensures
            n == self@.day_number(),
    {
        proof {
            use_type_invariant(self);
            lemma_representable_range(self@);
            lemma_known_day_numbers();
        }
        let before_year: i64 = count_days_before_year(self.year);
        let before_month: i64 = count_days_before_month(self.year, self.month);
        (before_year + before_month + self.day as i64) as i32
    }

    /// The day of the week.
    pub fn weekday(&self) -> (weekday: Weekday)
        ensures
            weekday.days_from_sunday() == self@.days_from_sunday(),
    {
        proof {
            use_type_invariant(self);
        }
        chrono_weekday(self.year, self.month, self.day)
    }

    /// The day before, or `None` when this is the first date that can be
    /// held.
    pub fn pred_opt(&self) -> (r: Option<CalendarDate>)
        ensures
            match r {
                Some(before) => before.is_valid() && before@.day_number() == self@.day_number()
                    - 1,
                None => self@.day_number() == min_day_number(),
            },
    {
        proof {
            use_type_invariant(self);
        }
        match chrono_pred(self.year, self.month, self.day) {
            Some((year, month, day)) => Some(CalendarDate { year, month, day }),
            None => None,
        }
    }

    /// The date `days` days later (earlier, when `days` is negative), or
    /// `None` when that day lies outside the dates that can be held.
    pub fn checked_add_days(&self, days: i64) -> (r: Option<CalendarDate>)
        ensures
            match r {
                Some(moved) => moved.is_valid() && moved@.day_number() == self@.day_number()
                    + days,
                None => !(min_day_number() <= self@.day_number() + days <= max_day_number()),
            },
    {
        proof {
            use_type_invariant(self);
        }
        match chrono_add_days(self.year, self.month, self.day, days) {
            Some((year, month, day)) => Some(CalendarDate { year, month, day }),
            None => None,
        }
    }

    /// The date `months` months later: the same day of that month, or its
    /// last day where the month is too short. `None` when that month lies
    /// outside the years that can be held.
    pub fn checked_add_months(&self, months: u32) -> (r: Option<CalendarDate>)
        ensures
            match r {
                Some(moved) => moved.is_valid() && moved@ == month_shifted(self@, months as int),
                None => !month_shifted(self@, months as int).is_representable(),
            },
    {
        proof {
            use_type_invariant(self);
        }
        match chrono_add_months(self.year, self.month, self.day, months) {
            Some((year, month, day)) => Some(CalendarDate { year, month, day }),
            None => None,
        }
    }

    /// The date `months` months earlier: the same day of that month, or its
    /// last day where the month is too short. `None` when that month lies
    /// outside the years that can be held.
    pub fn checked_sub_months(&self, months: u32) -> (r: Option<CalendarDate>)
        ensures
            match r {
                Some(moved) => moved.is_valid() && moved@ == month_shifted(self@, -(months as int)),
                None => !month_shifted(self@, -(months as int)).is_representable(),
            },
    {
        proof {
            use_type_invariant(self);
        }
        match chrono_sub_months(self.year, self.month, self.day, months) {
            Some((year, month, day)) => Some(CalendarDate { year, month, day }),
            None => None,
        }
    }

    /// Two dates with the same day number are the same date.
    pub proof fn lemma_equal_by_day_number(self, other: CalendarDate)
        requires
            self.is_valid(),
            other.is_valid(),
            self@.day_number() == other@.day_number(),
        ensures
            self == other,
    {
        lemma_day_number_orders(self@, other@);
    }
}

/// The number of days in all years from year 1 up to, but without, `year`.
fn count_days_before_year(year: i32) -> (days: i64)
    requires
        MIN_YEAR <= year <= MAX_YEAR,
    ensures
        days == days_before_year(year as int),
{
    // The years are counted from 656 times 400 years before year 1, which
    // keeps the count from being negative; 400 years have 146097 days, and
    // 656 times as many are taken off again.
    let past: i64 = (year as i64) + 262399;
    proof {
        let p = year as int - 1;
        assert((p + 262400) / 4 == p / 4 + 65600);
        assert((p + 262400) / 100 == p / 100 + 2624);
        assert((p + 262400) / 400 == p / 400 + 656);
    }
    365 * past + past / 4 - past / 100 + past / 400 - 95839632
}

/// Whether `year` has a February 29.
fn has_leap_day(year: i32) -> (leap: bool)
    requires
        MIN_YEAR <= year <= MAX_YEAR,
    ensures
        leap == is_leap_year(year as int),
{
    // The leap years repeat every 400 years, so a multiple of 400 is added
    // to count from a year that is not negative.
    let shifted: u32 = (year + 262400) as u32;
    shifted % 4 == 0 && (shifted % 100 != 0 || shifted % 400 == 0)
}

/// The number of days of `year` that lie before the first of `month`.
fn count_days_before_month(year: i32, month: u32) -> (days: i64)
    requires
        MIN_YEAR <= year <= MAX_YEAR,
        1 <= month <= 12,
    ensures
        days == days_before_month(year as int, month as int),
{
    proof {
        lemma_days_before_month_table(year as int);
    }
    let leap_day: i64 = if month > 2 && has_leap_day(year) {
        1
    } else {
        0
    };
    let common: i64 = if month == 1 {
        0
    } else if month == 2 {
        31
    } else if month == 3 {
        59
    } else if month == 4 {
        90
    } else if month == 5 {
        120
    } else if month == 6 {
        151
    } else if month == 7 {
        181
    } else if month == 8 {
        212
    } else if month == 9 {
        243
    } else if month == 10 {
        273
    } else if month == 11 {
        304
    } else {
        334
    };
    common + leap_day
}

/// The months since the start of year 0 up to the month of `date`.
pub open spec fn month_index(date: Ymd) -> int {
    date.year * 12 + (date.month - 1)
}

/// `date` moved by `months` months (backwards when negative): the month that
/// many months away, and in it the same day, or the last day of that month
/// where it has fewer days.
pub open spec fn month_shifted(date: Ymd, months: int) -> Ymd {
    let index = month_index(date) + months;
    let year = index / 12;
    let month = index % 12 + 1;
    let longest = days_in_month(year, month);
    Ymd { year, month, day: if date.day <= longest { date.day } else { longest } }
}

/// Whether `chrono` has a date with this year, month and day.
///
/// Calls `NaiveDate::from_ymd_opt`. Relied on: it returns a date exactly when
/// the month is 1 to 12, the day exists in that month of the proleptic
/// Gregorian calendar, and the year is one `chrono` can hold.
#[verifier::external_body]
fn chrono_has_date(year: i32, month: u32, day: u32) -> (found: bool)
    ensures
        found == ymd(year as int, month as int, day as int).is_representable(),
{
    NaiveDate::from_ymd_opt(year, month, day).is_some()
}

/// The weekday of a date.
///
/// Calls `Datelike::weekday` on the `NaiveDate`. Relied on: the weekday is
/// that of the proleptic Gregorian calendar, in which day 1 (January 1 of
/// year 1) is a Monday and the weekdays repeat every seven days.
#[verifier::external_body]
fn chrono_weekday(year: i32, month: u32, day: u32) -> (weekday: Weekday)
    requires
        ymd(year as int, month as int, day as int).is_representable(),
    ensures
        weekday.days_from_sunday() == ymd(year as int, month as int, day as int).days_from_sunday(),
{
    match NaiveDate::from_ymd_opt(year, month, day).unwrap().weekday() {
        chrono::Weekday::Mon => Weekday::Mon,
        chrono::Weekday::Tue => Weekday::Tue,
        chrono::Weekday::Wed => Weekday::Wed,
        chrono::Weekday::Thu => Weekday::Thu,
        chrono::Weekday::Fri => Weekday::Fri,
        chrono::Weekday::Sat => Weekday::Sat,
        chrono::Weekday::Sun => Weekday::Sun,
    }
}

/// The year, month and day of the day before a date.
///
/// Calls `NaiveDate::pred_opt`. Relied on: it returns the previous calendar
/// date, and `None` only for the first date `chrono` can hold.
#[verifier::external_body]
fn chrono_pred(year: i32, month: u32, day: u32) -> (r: Option<(i32, u32, u32)>)
    requires
        ymd(year as int, month as int, day as int).is_representable(),
    ensures
        match r {
            Some((y, m, d)) => ymd(y as int, m as int, d as int).is_representable() && ymd(
                y as int,
                m as int,
                d as int,
            ).day_number() == ymd(year as int, month as int, day as int).day_number() - 1,
            None => ymd(year as int, month as int, day as int).day_number() == min_day_number(),
        },
{
    let before = NaiveDate::from_ymd_opt(year, month, day).unwrap().pred_opt()?;
    Some((before.year(), before.month(), before.day()))
}

/// The year, month and day of the date `days` days after a date.
///
/// Calls `NaiveDate::checked_add_signed` with a `TimeDelta` of `days` whole
/// days. Relied on: it returns the date whose day number is larger by `days`,
/// and `None` exactly when that day lies outside the dates `chrono` can hold
/// (which includes every `days` too large for a `TimeDelta`).
#[verifier::external_body]
fn chrono_add_days(year: i32, month: u32, day: u32, days: i64) -> (r: Option<(i32, u32, u32)>)
    requires
        ymd(year as int, month as int, day as int).is_representable(),
    ensures
        match r {
            Some((y, m, d)) => ymd(y as int, m as int, d as int).is_representable() && ymd(
                y as int,
                m as int,
                d as int,
            ).day_number() == ymd(year as int, month as int, day as int).day_number() + days,
            None => !(min_day_number() <= ymd(
                year as int,
                month as int,
                day as int,
            ).day_number() + days <= max_day_number()),
        },
{
    let start = NaiveDate::from_ymd_opt(year, month, day).unwrap();
    let moved = start.checked_add_signed(TimeDelta::try_days(days)?)?;
    Some((moved.year(), moved.month(), moved.day()))
}

/// The year, month and day of the date `months` months after a date.
///
/// Calls `NaiveDate::checked_add_months`. Relied on: it moves to the month
/// that many months later, keeps the day or takes the last day of a shorter
/// month, and returns `None` exactly when the year of that month is one
/// `chrono` cannot hold.
#[verifier::external_body]
fn chrono_add_months(year: i32, month: u32, day: u32, months: u32) -> (r: Option<(i32, u32, u32)>)
    requires
        ymd(year as int, month as int, day as int).is_representable(),
    ensures
        match r {
            Some((y, m, d)) => ymd(y as int, m as int, d as int) == month_shifted(
                ymd(year as int, month as int, day as int),
                months as int,
            ) && ymd(y as int, m as int, d as int).is_representable(),
            None => !month_shifted(
                ymd(year as int, month as int, day as int),
                months as int,
            ).is_representable(),
        },
{
    let start = NaiveDate::from_ymd_opt(year, month, day).unwrap();
    let moved = start.checked_add_months(Months::new(months))?;
    Some((moved.year(), moved.month(), moved.day()))
}

/// The year, month and day of the date `months` months before a date.
///
/// Calls `NaiveDate::checked_sub_months`. Relied on: it moves to the month
/// that many months earlier, keeps the day or takes the last day of a shorter
/// month, and returns `None` exactly when the year of that month is one
/// `chrono` cannot hold.
#[verifier::external_body]
fn chrono_sub_months(year: i32, month: u32, day: u32, months: u32) -> (r: Option<(i32, u32, u32)>)
    requires
        ymd(year as int, month as int, day as int).is_representable(),
    ensures
        match r {
            Some((y, m, d)) => ymd(y as int, m as int, d as int) == month_shifted(
                ymd(year as int, month as int, day as int),
                -(months as int),
            ) && ymd(y as int, m as int, d as int).is_representable(),
            None => !month_shifted(
                ymd(year as int, month as int, day as int),
                -(months as int),
            ).is_representable(),
        },
{
    let start = NaiveDate::from_ymd_opt(year, month, day).unwrap();
    let moved = start.checked_sub_months(Months::new(months))?;
    Some((moved.year(), moved.month(), moved.day()))
}

} // verus!
