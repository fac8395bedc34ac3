//! How one month is laid out and how its cells are set off: the rows of the
//! grid, the text and tone of the weekday labels above it, and the highlight
//! of a cell. The drawing itself is left to the program around this library.

use crate::logic::calendar_logic::CalendarDay;
use crate::logic::date::{CalendarDate, Weekday};
use crate::marked_dates::MarkedDateSet;
use vstd::prelude::*;

verus! {

/// The number of columns of a month grid: one for each day of the week,
/// Sunday first.
pub const COLUMNS: usize = 7;

/// How the label of a weekday column is set off.
#[derive(Debug, Clone, Copy, PartialEq, Eq, Structural)]
pub enum LabelTone {
    /// The label of the Sunday column.
    Sunday,
    /// The label of the Saturday column.
    Saturday,
    /// The label of any other column.
    Plain,
}

/// How a cell is set off from the others.
#[derive(Debug, Clone, Copy, PartialEq, Eq, Structural)]
pub enum DayHighlight {
    /// The cell shows today's date.
    Today,
    /// The cell shows a marked date that is not today's.
    Marked,
    /// The cell shows neither.
    Plain,
}

/// The weekday whose dates stand in `column`, or `None` when the grid has no
/// such column.
pub fn column_weekday(column: usize) -> (r: Option<Weekday>)
    ensures
        match r {
            Some(weekday) => column < COLUMNS && weekday.days_from_sunday() == column,
            None => column >= COLUMNS,
        },
{
    if column < COLUMNS {
        Weekday::from_days_from_sunday(column as u32)
    } else {
        None
    }
}

/// The text of the label above the dates of `weekday`.
pub fn weekday_label(weekday: Weekday) -> (label: &'static str)
    ensures
        label@ == match weekday {
            Weekday::Sun => "Sun."@,
            Weekday::Mon => "Mon."@,
            Weekday::Tue => "Tue."@,
            Weekday::Wed => "Wed."@,
            Weekday::Thu => "Thu."@,
            Weekday::Fri => "Fri."@,
            Weekday::Sat => "Sat."@,
        },
{
    match weekday {
        Weekday::Sun => "Sun.",
        Weekday::Mon => "Mon.",
        Weekday::Tue => "Tue.",
        Weekday::Wed => "Wed.",
        Weekday::Thu => "Thu.",
        Weekday::Fri => "Fri.",
        Weekday::Sat => "Sat.",
    }
}

/// The tone of the label above the dates of `weekday`.
pub fn label_tone(weekday: Weekday) -> (tone: LabelTone)
    ensures
        tone == match weekday {
            Weekday::Sun => LabelTone::Sunday,
            Weekday::Sat => LabelTone::Saturday,
            _ => LabelTone::Plain,
        },
{
    match weekday {
        Weekday::Sun => LabelTone::Sunday,
        Weekday::Sat => LabelTone::Saturday,
        _ => LabelTone::Plain,
    }
}

/// The highlight of the cell `day`: today's date comes before a mark.
pub fn day_highlight(day: &CalendarDay, today: &CalendarDate, marked_dates: &MarkedDateSet) -> (r:
    DayHighlight)
    ensures
        r == if day.date == *today {
            DayHighlight::Today
        } else if marked_dates@.contains(day.date) {
            DayHighlight::Marked
        } else {
            DayHighlight::Plain
        },
{
    if day.date == *today {
        DayHighlight::Today
    } else if marked_dates.contains(&day.date) {
        DayHighlight::Marked
    } else {
        DayHighlight::Plain
    }
}

/// The number of rows that `days` fill, the last one counted also where it
/// is not full.
pub fn week_count(days: &Vec<CalendarDay>) -> (weeks: usize)
    ensures
        weeks == (days@.len() as int + 6) / 7,
        days@.len() as int % 7 == 0 ==> weeks * 7 == days@.len(),
{
    let full: usize = days.len() / COLUMNS;
    if days.len() % COLUMNS == 0 {
        full
    } else {
        full + 1
    }
}

/// The cell in row `week` and column `column`, both counted from 0, where
/// `days` are laid out row by row; `None` where there is no such cell.
pub fn day_at(days: &Vec<CalendarDay>, week: usize, column: usize) -> (r: Option<CalendarDay>)
    ensures
        match r {
            Some(day) => column < COLUMNS && week * COLUMNS + column < days@.len() && day
                == days@[week * COLUMNS + column],
            None => !(column < COLUMNS && week * COLUMNS + column < days@.len()),
        },
{
    if column >= COLUMNS || column >= days.len() {
        return None;
    }
    let last_week: usize = (days.len() - 1 - column) / COLUMNS;
    if week > last_week {
        return None;
    }
    Some(days[week * COLUMNS + column])
}

} // verus!
