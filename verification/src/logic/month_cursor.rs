//! The month in view, and the months next to it.
//!
//! A month is named by its year and its number, 1 to 12. Going on from
//! December leads to January of the next year, going back from January to
//! December of the year before.

use crate::logic::calendar_logic::CalendarError;
use crate::logic::date::CalendarDate;
use crate::logic::gregorian::{MAX_YEAR, MIN_YEAR};
use vstd::prelude::*;

verus! {

/// Whether `(year, month)` names a month that can be held: a month 1 to 12
/// of a year from [`MIN_YEAR`] to [`MAX_YEAR`].
pub open spec fn is_held_month(year: int, month: int) -> bool {
    1 <= month <= 12 && MIN_YEAR <= year <= MAX_YEAR
}

/// The month before `(year, month)`.
pub open spec fn month_before(year: int, month: int) -> (int, int) {
    if month == 1 {
        (year - 1, 12)
    } else {
        (year, month - 1)
    }
}

/// The month after `(year, month)`.
pub open spec fn month_after(year: int, month: int) -> (int, int) {
    if month == 12 {
        (year + 1, 1)
    } else {
        (year, month + 1)
    }
}

/// The month before `(year, month)`.
///
/// Fails with [`CalendarError::InvalidDate`] when `(year, month)` is no month
/// that can be held, and when the month before it is none.
pub fn previous_month(year: i32, month: u32) -> (r: Result<(i32, u32), CalendarError>)
    ensures
        match r {
            Ok((y, m)) => is_held_month(year as int, month as int) && is_held_month(
                y as int,
                m as int,
            ) && (y as int, m as int) == month_before(year as int, month as int),
            Err(e) => e == CalendarError::InvalidDate && !(is_held_month(year as int, month as int)
                && is_held_month(
                month_before(year as int, month as int).0,
                month_before(year as int, month as int).1,
            )),
        },
{
    let first = match CalendarDate::from_ymd_opt(year, month, 1) {
        Some(date) => date,
        None => {
            return Err(CalendarError::InvalidDate);
        },
    };
    match first.checked_sub_months(1) {
        Some(moved) => Ok((moved.year(), moved.month())),
        None => Err(CalendarError::InvalidDate),
    }
}

/// The month after `(year, month)`.
///
/// Fails with [`CalendarError::InvalidDate`] when `(year, month)` is no month
/// that can be held, and when the month after it is none.
pub fn next_month(year: i32, month: u32) -> (r: Result<(i32, u32), CalendarError>)
    ensures
        match r {
            Ok((y, m)) => is_held_month(year as int, month as int) && is_held_month(
                y as int,
                m as int,
            ) && (y as int, m as int) == month_after(year as int, month as int),
            Err(e) => e == CalendarError::InvalidDate && !(is_held_month(year as int, month as int)
                && is_held_month(
                month_after(year as int, month as int).0,
                month_after(year as int, month as int).1,
            )),
        },
{
    let first = match CalendarDate::from_ymd_opt(year, month, 1) {
        Some(date) => date,
        None => {
            return Err(CalendarError::InvalidDate);
        },
    };
    match first.checked_add_months(1) {
        Some(moved) => Ok((moved.year(), moved.month())),
        None => Err(CalendarError::InvalidDate),
    }
}

/// Going back a month and on again, or on and back, leads to the same
/// month; and the neighbours of a month 1 to 12 are months 1 to 12.
pub proof fn lemma_month_steps_undo(year: int, month: int)
    requires
        1 <= month <= 12,
    ensures
        month_after(month_before(year, month).0, month_before(year, month).1) == (year, month),
        month_before(month_after(year, month).0, month_after(year, month).1) == (year, month),
        1 <= month_before(year, month).1 <= 12,
        1 <= month_after(year, month).1 <= 12,
{
}

} // verus!
