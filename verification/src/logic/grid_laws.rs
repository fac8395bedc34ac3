//! What holds of every month grid.
//!
//! The statements here are about any sequence of cells that is the grid of a
//! month, as [`is_month_grid`] defines it, and so about whatever
//! [`crate::logic::calendar_logic::generate_calendar_days`] returns.

use crate::logic::calendar_logic::{
    current_month_count, first_of_month, grid_len, grid_start, has_grid, is_month_grid,
    is_of_month, last_of_month, leading_days, trailing_days, CalendarDay,
};
use crate::logic::date::ymd;
use crate::logic::gregorian::{
    days_in_month, lemma_day_number_orders, lemma_known_day_numbers, lemma_next_date,
    lemma_representable_range, Ymd, MAX_YEAR, MIN_YEAR,
};
use vstd::prelude::*;

verus! {

/// A grid is made of whole weeks: four, five or six of them, and four only
/// for a month of 28 days that starts on a Sunday.
pub proof fn lemma_grid_is_whole_weeks(year: int, month: int)
    requires
        1 <= month <= 12,
    ensures
        0 <= leading_days(year, month) <= 6,
        0 <= trailing_days(year, month) <= 6,
        grid_len(year, month) % 7 == 0,
        grid_len(year, month) == 28 || grid_len(year, month) == 35 || grid_len(year, month) == 42,
        grid_len(year, month) == 28 <==> days_in_month(year, month) == 28 && leading_days(
            year,
            month,
        ) == 0,
{
}

/// The days a grid spans: the month's last day lies its length less one
/// after its first, and the grid ends the trailing days after that.
pub proof fn lemma_grid_span(year: int, month: int)
    requires
        1 <= month <= 12,
    ensures
        last_of_month(year, month).day_number() == first_of_month(year, month).day_number()
            + days_in_month(year, month) - 1,
        grid_start(year, month) + grid_len(year, month) - 1 == last_of_month(
            year,
            month,
        ).day_number() + trailing_days(year, month),
        grid_start(year, month) <= first_of_month(year, month).day_number(),
        last_of_month(year, month).day_number() <= grid_start(year, month) + grid_len(year, month)
            - 1,
{
}

/// The first of the following month is the day after the last of the month.
pub proof fn lemma_next_month_starts_after_last_day(year: int, month: int)
    requires
        1 <= month <= 12,
    ensures
        last_of_month(year, month).is_calendar_date(),
        month < 12 ==> first_of_month(year, month + 1).day_number() == last_of_month(
            year,
            month,
        ).day_number() + 1,
        month == 12 ==> first_of_month(year + 1, 1).day_number() == last_of_month(
            year,
            month,
        ).day_number() + 1,
{
    lemma_next_date(last_of_month(year, month));
}

/// A date lies in a month exactly when its day number lies between those of
/// the month's first and last day.
pub proof fn lemma_cell_in_month(date: Ymd, year: int, month: int)
    requires
        date.is_calendar_date(),
        1 <= month <= 12,
    ensures
        (date.year == year && date.month == month) <==> first_of_month(year, month).day_number()
            <= date.day_number() <= last_of_month(year, month).day_number(),
{
    lemma_day_number_orders(date, first_of_month(year, month));
    lemma_day_number_orders(date, last_of_month(year, month));
}

/// A month that does not exist, or whose first day cannot be held, has no
/// grid.
pub proof fn lemma_month_without_first_day(year: int, month: int)
    requires
        !first_of_month(year, month).is_representable(),
    ensures
        !has_grid(year, month),
{
    if 1 <= month <= 12 {
        lemma_representable_range(first_of_month(year, month));
        lemma_grid_span(year, month);
    }
}

/// A month that has a grid can be held.
pub proof fn lemma_month_with_grid_is_held(year: int, month: int)
    ensures
        has_grid(year, month) ==> 1 <= month <= 12 && MIN_YEAR <= year <= MAX_YEAR,
{
    if has_grid(year, month) {
        lemma_representable_range(first_of_month(year, month));
        lemma_grid_span(year, month);
    }
}

/// December of the last year has no grid: its week ends in a year that
/// cannot be held.
pub proof fn lemma_last_month_has_no_grid()
    ensures
        !has_grid(MAX_YEAR as int, 12),
{
    lemma_known_day_numbers();
    lemma_grid_span(MAX_YEAR as int, 12);
}

/// In a grid, the cells of the month are those after the leading days and
/// before the trailing days, and each holds the day of the month that its
/// place gives.
pub proof fn lemma_grid_cells_of_month(cells: Seq<CalendarDay>, year: int, month: int, i: int)
    requires
        1 <= month <= 12,
        is_month_grid(cells, year, month),
        0 <= i < cells.len(),
    ensures
        cells[i].is_current_month <==> leading_days(year, month) <= i < leading_days(year, month)
            + days_in_month(year, month),
        cells[i].is_current_month ==> cells[i].date@ == ymd(
            year,
            month,
            i - leading_days(year, month) + 1,
        ),
{
    lemma_grid_is_whole_weeks(year, month);
    lemma_cell_in_month(cells[i].date@, year, month);
    if cells[i].is_current_month {
        let expected = ymd(year, month, i - leading_days(year, month) + 1);
        lemma_day_number_orders(cells[i].date@, expected);
    }
}

/// Every day of the month stands in its grid, marked as of the month, at the
/// place that the leading days and its number give.
pub proof fn lemma_grid_holds_every_day(cells: Seq<CalendarDay>, year: int, month: int, day: int)
    requires
        1 <= month <= 12,
        is_month_grid(cells, year, month),
        1 <= day <= days_in_month(year, month),
    ensures
        0 <= leading_days(year, month) + day - 1 < cells.len(),
        cells[leading_days(year, month) + day - 1].date@ == ymd(year, month, day),
        cells[leading_days(year, month) + day - 1].is_current_month,
{
    lemma_grid_is_whole_weeks(year, month);
    lemma_grid_cells_of_month(cells, year, month, leading_days(year, month) + day - 1);
}

proof fn lemma_count_in_prefix(cells: Seq<CalendarDay>, year: int, month: int, n: int)
    requires
        1 <= month <= 12,
        is_month_grid(cells, year, month),
        0 <= n <= cells.len(),
    ensures
        current_month_count(cells.take(n)) == if n <= leading_days(year, month) {
            0
        } else if n <= leading_days(year, month) + days_in_month(year, month) {
            n - leading_days(year, month)
        } else {
            days_in_month(year, month)
        },
    decreases n,
{
    lemma_grid_is_whole_weeks(year, month);
    if n == 0 {
        reveal(Seq::filter);
        assert(cells.take(0).len() == 0);
    } else {
        lemma_count_in_prefix(cells, year, month, n - 1);
        lemma_grid_cells_of_month(cells, year, month, n - 1);
        assert(cells.take(n) =~= cells.take(n - 1).push(cells[n - 1]));
        cells.take(n - 1).lemma_filter_len_push(is_of_month(), cells[n - 1]);
    }
}

/// A grid has as many cells of the month as the month has days.
pub proof fn lemma_grid_current_month_count(cells: Seq<CalendarDay>, year: int, month: int)
    requires
        1 <= month <= 12,
        is_month_grid(cells, year, month),
    ensures
        current_month_count(cells) == days_in_month(year, month),
{
    lemma_grid_is_whole_weeks(year, month);
    lemma_count_in_prefix(cells, year, month, cells.len() as int);
    assert(cells.take(cells.len() as int) =~= cells);
}

/// A grid starts on a Sunday and ends on a Saturday.
pub proof fn lemma_grid_starts_sunday_ends_saturday(
    cells: Seq<CalendarDay>,
    year: int,
    month: int,
)
    requires
        1 <= month <= 12,
        is_month_grid(cells, year, month),
    ensures
        cells.len() >= 28,
        cells.first().date@.days_from_sunday() == 0,
        cells.last().date@.days_from_sunday() == 6,
{
    lemma_grid_is_whole_weeks(year, month);
}

/// The dates of a grid strictly ascend, so no date stands in it twice.
pub proof fn lemma_grid_ascending(cells: Seq<CalendarDay>, year: int, month: int)
    requires
        is_month_grid(cells, year, month),
    ensures
        forall|i: int, j: int|
            0 <= i < j < cells.len() ==> (#[trigger] cells[i]).date@.is_before(
                (#[trigger] cells[j]).date@,
            ),
        forall|i: int, j: int|
            0 <= i < cells.len() && 0 <= j < cells.len() && i != j ==> (#[trigger] cells[i]).date
                != (#[trigger] cells[j]).date,
{
    assert forall|i: int, j: int| 0 <= i < j < cells.len() implies (#[trigger] cells[i]).date@.is_before(
        (#[trigger] cells[j]).date@,
    ) by {
        lemma_day_number_orders(cells[i].date@, cells[j].date@);
    }
}

/// A month has one grid only: two sequences that are both the grid of the
/// same month are equal, so making the grid twice gives the same cells.
pub proof fn lemma_grid_unique(
    first: Seq<CalendarDay>,
    second: Seq<CalendarDay>,
    year: int,
    month: int,
)
    requires
        is_month_grid(first, year, month),
        is_month_grid(second, year, month),
    ensures
        first == second,
{
    assert forall|i: int| 0 <= i < first.len() implies first[i] == second[i] by {
        first[i].date.lemma_equal_by_day_number(second[i].date);
    }
    assert(first =~= second);
}

/// Where the grid of a December runs past December 31, the days after it
/// are the first days of January of the following year, borrowed.
pub proof fn lemma_december_rolls_into_next_year(
    cells: Seq<CalendarDay>,
    year: int,
    i: int,
)
    requires
        is_month_grid(cells, year, 12),
        leading_days(year, 12) + 31 <= i < cells.len(),
    ensures
        cells[i].date@ == ymd(year + 1, 1, i - (leading_days(year, 12) + 31) + 1),
        !cells[i].is_current_month,
        cells[leading_days(year, 12) + 31].date@ == ymd(year + 1, 1, 1),
{
    lemma_grid_is_whole_weeks(year, 12);
    lemma_next_month_starts_after_last_day(year, 12);
    let at = leading_days(year, 12) + 31;
    lemma_day_number_orders(cells[i].date@, ymd(year + 1, 1, i - at + 1));
    lemma_day_number_orders(cells[at].date@, ymd(year + 1, 1, 1));
}

/// Where the grid of a January starts before January 1, the days before it
/// are the last days of December of the year before, borrowed.
pub proof fn lemma_january_rolls_into_previous_year(
    cells: Seq<CalendarDay>,
    year: int,
    i: int,
)
    requires
        is_month_grid(cells, year, 1),
        0 <= i < leading_days(year, 1),
    ensures
        cells[i].date@ == ymd(year - 1, 12, 31 - leading_days(year, 1) + i + 1),
        !cells[i].is_current_month,
{
    lemma_grid_is_whole_weeks(year, 1);
    lemma_next_month_starts_after_last_day(year - 1, 12);
    lemma_day_number_orders(cells[i].date@, ymd(year - 1, 12, 31 - leading_days(year, 1) + i + 1));
}

} // verus!
