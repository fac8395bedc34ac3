//! The month grid: the days of one month laid out in full weeks.
//!
//! A grid starts on the Sunday on or before the first of the month and ends
//! on the Saturday on or after its last day. The days it borrows from the
//! months before and after are marked as not belonging to the month.

use crate::logic::date::{ymd, CalendarDate};
use crate::logic::gregorian::{
    days_in_month, lemma_day_number_orders, lemma_representable_range, max_day_number,
    min_day_number, Ymd,
};
use crate::logic::grid_laws::{
    lemma_cell_in_month, lemma_grid_ascending, lemma_grid_current_month_count,
    lemma_grid_is_whole_weeks, lemma_grid_span, lemma_grid_starts_sunday_ends_saturday,
    lemma_last_month_has_no_grid, lemma_month_without_first_day,
    lemma_next_month_starts_after_last_day,
};
use vstd::prelude::*;

verus! {

/// One cell of a month grid.
#[derive(Clone, Copy, Debug, PartialEq, Eq, Structural)]
pub struct CalendarDay {
    /// The date shown in the cell.
    pub date: CalendarDate,
    /// Whether the date lies in the month the grid was made for; `false` for
    /// the days borrowed from the month before or after.
    pub is_current_month: bool,
}

/// Why no grid could be made.
#[derive(Clone, Copy, Debug, PartialEq, Eq, Structural)]
pub enum CalendarError {
    /// The month does not exist, or the grid would hold a day outside the
    /// dates that can be held.
    InvalidDate,
}

/// The first day of a month.
pub open spec fn first_of_month(year: int, month: int) -> Ymd {
    ymd(year, month, 1)
}

/// The last day of a month.
pub open spec fn last_of_month(year: int, month: int) -> Ymd {
    ymd(year, month, days_in_month(year, month))
}

/// The number of days borrowed from the month before: the days from the
/// Sunday that starts the first week up to the first of the month.
pub open spec fn leading_days(year: int, month: int) -> int {
    first_of_month(year, month).days_from_sunday()
}

/// The number of days borrowed from the month after: the days after the last
/// of the month up to the Saturday that ends its week.
pub open spec fn trailing_days(year: int, month: int) -> int {
    6 - last_of_month(year, month).days_from_sunday()
}

/// The number of cells in the grid of a month.
pub open spec fn grid_len(year: int, month: int) -> int {
    leading_days(year, month) + days_in_month(year, month) + trailing_days(year, month)
}

/// The day number of the first cell of the grid of a month.
pub open spec fn grid_start(year: int, month: int) -> int {
    first_of_month(year, month).day_number() - leading_days(year, month)
}

/// Whether a month has a grid: the month exists, and every day of the grid,
/// borrowed days included, is a date that can be held.
pub open spec fn has_grid(year: int, month: int) -> bool {
    &&& 1 <= month <= 12
    &&& min_day_number() <= grid_start(year, month)
    &&& grid_start(year, month) + grid_len(year, month) - 1 <= max_day_number()
}

/// Whether `cell` is what stands at place `index` of the grid of a month: the
/// date that many days after the grid's first day, marked as of the month
/// exactly when it lies in it.
pub open spec fn is_grid_cell(cell: CalendarDay, year: int, month: int, index: int) -> bool {
    &&& cell.date.is_valid()
    &&& cell.date@.day_number() == grid_start(year, month) + index
    &&& cell.is_current_month == (cell.date@.year == year && cell.date@.month == month)
}

/// Whether `cells` is the grid of a month: consecutive days, one cell each,
/// from the grid's first day to its last.
pub open spec fn is_month_grid(cells: Seq<CalendarDay>, year: int, month: int) -> bool {
    &&& cells.len() == grid_len(year, month)
    &&& forall|i: int| 0 <= i < cells.len() ==> is_grid_cell(#[trigger] cells[i], year, month, i)
}

/// The test for a cell that belongs to the month its grid was made for.
pub open spec fn is_of_month() -> spec_fn(CalendarDay) -> bool {
    |cell: CalendarDay| cell.is_current_month
}

/// The number of cells that belong to the month the grid was made for.
pub open spec fn current_month_count(cells: Seq<CalendarDay>) -> nat {
    cells.filter(is_of_month()).len()
}

/// The grid of a month: its days in full weeks, from the Sunday on or before
/// the first of the month to the Saturday on or after its last day.
///
/// Fails with [`CalendarError::InvalidDate`] when `month` is not 1 to 12, and
/// when a day of the grid lies outside the dates that can be held.
pub fn generate_calendar_days(year: i32, month: u32) -> (r: Result<
    Vec<CalendarDay>,
    CalendarError,
>)
    ensures
        match r {
            Ok(days) => has_grid(year as int, month as int) && is_month_grid(
                days@,
                year as int,
                month as int,
            ),
            Err(e) => e == CalendarError::InvalidDate && !has_grid(year as int, month as int),
        },
        r matches Ok(days) ==> {
            &&& days@.len() % 7 == 0
            &&& 28 <= days@.len() <= 42
            &&& current_month_count(days@) == days_in_month(year as int, month as int)
            &&& days@.first().date@.days_from_sunday() == 0
            &&& days@.last().date@.days_from_sunday() == 6
            &&& forall|i: int, j: int|
                0 <= i < j < days@.len() ==> (#[trigger] days@[i]).date@.is_before(
                    (#[trigger] days@[j]).date@,
                )
            &&& forall|i: int, j: int|
                0 <= i < days@.len() && 0 <= j < days@.len() && i != j ==> (#[trigger] days@[i]).date
                    != (#[trigger] days@[j]).date
        },
{
    let ghost y = year as int;
    let ghost m = month as int;
    let first = match CalendarDate::from_ymd_opt(year, month, 1) {
        Some(date) => date,
        None => {
            proof {
                lemma_month_without_first_day(y, m);
            }
            return Err(CalendarError::InvalidDate);
        },
    };
    proof {
        lemma_next_month_starts_after_last_day(y, m);
        lemma_grid_is_whole_weeks(y, m);
        lemma_grid_span(y, m);
        lemma_representable_range(first@);
    }
    // The last day of the month is the day before the first of the next.
    let following = if month == 12 {
        CalendarDate::from_ymd_opt(year + 1, 1, 1)
    } else {
        CalendarDate::from_ymd_opt(year, month + 1, 1)
    };
    let last_day = match following {
        Some(next_first) => next_first.pred_opt(),
        None => None,
    };
    let last = match last_day {
        Some(date) => date,
        // Reached for the last December only, whose following month cannot
        // be held: the week of its last day does not end in that year.
        None => {
            proof {
                lemma_last_month_has_no_grid();
            }
            return Err(CalendarError::InvalidDate);
        },
    };
    proof {
        lemma_day_number_orders(last@, last_of_month(y, m));
        lemma_representable_range(last@);
    }

    let mut days: Vec<CalendarDay> = Vec::new();

    // The days before the first of the month, back to Sunday.
    let lead: u32 = first.weekday().num_days_from_sunday();
    let mut back: u32 = lead;
    while back > 0
        invariant
            y == year as int,
            m == month as int,
            1 <= m <= 12,
            first.is_valid(),
            first@ == first_of_month(y, m),
            first@.day_number() <= max_day_number(),
            lead == leading_days(y, m),
            back <= lead <= 6,
            days@.len() == lead - back,
            forall|i: int| 0 <= i < days@.len() ==> is_grid_cell(#[trigger] days@[i], y, m, i),
        decreases back,
    {
        let date = match first.checked_add_days(-(back as i64)) {
            Some(date) => date,
            None => {
                return Err(CalendarError::InvalidDate);
            },
        };
        proof {
            lemma_cell_in_month(date@, y, m);
        }
        days.push(CalendarDay { date, is_current_month: false });
        back = back - 1;
    }
    proof {
        if lead > 0 {
            lemma_representable_range(days@[0].date@);
        }
    }

    // The days of the month itself.
    let length: u32 = last.day();
    let mut passed: u32 = 0;
    while passed < length
        invariant
            y == year as int,
            m == month as int,
            1 <= m <= 12,
            first.is_valid(),
            first@ == first_of_month(y, m),
            min_day_number() <= first@.day_number(),
            last_of_month(y, m).day_number() <= max_day_number(),
            lead == leading_days(y, m),
            length == days_in_month(y, m),
            passed <= length,
            days@.len() == lead + passed,
            forall|i: int| 0 <= i < days@.len() ==> is_grid_cell(#[trigger] days@[i], y, m, i),
        decreases length - passed,
    {
        let date = match first.checked_add_days(passed as i64) {
            Some(date) => date,
            // Not reached: the day is no later than the last of the month.
            None => {
                return Err(CalendarError::InvalidDate);
            },
        };
        proof {
            lemma_cell_in_month(date@, y, m);
        }
        days.push(CalendarDay { date, is_current_month: true });
        passed = passed + 1;
    }

    // The days after the last of the month, on to Saturday.
    let trail: u32 = 6 - last.weekday().num_days_from_sunday();
    let mut after: u32 = 1;
    while after <= trail
        invariant
            y == year as int,
            m == month as int,
            1 <= m <= 12,
            last.is_valid(),
            last@ == last_of_month(y, m),
            min_day_number() <= last@.day_number(),
            lead == leading_days(y, m),
            trail == trailing_days(y, m),
            trail <= 6,
            1 <= after <= trail + 1,
            days@.len() == lead + days_in_month(y, m) + (after - 1),
            forall|i: int| 0 <= i < days@.len() ==> is_grid_cell(#[trigger] days@[i], y, m, i),
        decreases trail + 1 - after,
    {
        let date = match last.checked_add_days(after as i64) {
            Some(date) => date,
            None => {
                return Err(CalendarError::InvalidDate);
            },
        };
        proof {
            lemma_cell_in_month(date@, y, m);
        }
        days.push(CalendarDay { date, is_current_month: false });
        after = after + 1;
    }

    proof {
        lemma_representable_range(days@[days@.len() - 1].date@);
        lemma_grid_current_month_count(days@, y, m);
        lemma_grid_starts_sunday_ends_saturday(days@, y, m);
        lemma_grid_ascending(days@, y, m);
    }
    Ok(days)
}

} // verus!
