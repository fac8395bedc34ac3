//! The state of the calendar window: the month in view, the marked dates,
//! two switches, and the grids last made for the months on show.

use crate::logic::calendar_logic::{
    generate_calendar_days, has_grid, is_month_grid, CalendarDay, CalendarError,
};
use crate::logic::date::CalendarDate;
use crate::logic::grid_laws::lemma_month_with_grid_is_held;
use crate::logic::month_cursor::{
    is_held_month, month_after, month_before, next_month, previous_month,
};
use crate::marked_dates::{toggled, MarkedDateSet};
use vstd::prelude::*;

verus! {

/// How many months the window shows.
#[derive(Debug, Clone, Copy, PartialEq, Eq, Structural)]
pub enum ViewMode {
    /// The month in view alone.
    SingleMonth,
    /// The month in view between the month before and the month after.
    ThreeMonths,
}

impl ViewMode {
    /// The number of months shown side by side.
    pub fn months_shown(&self) -> (count: usize)
        ensures
            count == match *self {
                ViewMode::SingleMonth => 1usize,
                ViewMode::ThreeMonths => 3usize,
            },
    {
        match self {
            ViewMode::SingleMonth => 1,
            ViewMode::ThreeMonths => 3,
        }
    }

    /// The inner size the window takes in this mode, as width and height in
    /// points.
    pub fn window_size(&self) -> (size: (u32, u32))
        ensures
            size == match *self {
                ViewMode::SingleMonth => (300u32, 310u32),
                ViewMode::ThreeMonths => (860u32, 310u32),
            },
    {
        match self {
            ViewMode::SingleMonth => (300, 310),
            ViewMode::ThreeMonths => (860, 310),
        }
    }

    /// The other mode.
    pub fn switched(&self) -> (other: ViewMode)
        ensures
            other == match *self {
                ViewMode::SingleMonth => ViewMode::ThreeMonths,
                ViewMode::ThreeMonths => ViewMode::SingleMonth,
            },
    {
        match self {
            ViewMode::SingleMonth => ViewMode::ThreeMonths,
            ViewMode::ThreeMonths => ViewMode::SingleMonth,
        }
    }
}

/// The inner size the window is to take when the view mode is `mode` and was
/// `previous` at the last redraw: the size of `mode` where the mode has
/// changed, and `None`, for a window that keeps its size, where it has not.
pub fn size_after_mode_change(mode: ViewMode, previous: ViewMode) -> (r: Option<(u32, u32)>)
    ensures
        r == if mode == previous {
            None
        } else {
            Some(
                match mode {
                    ViewMode::SingleMonth => (300u32, 310u32),
                    ViewMode::ThreeMonths => (860u32, 310u32),
                },
            )
        },
{
    if mode == previous {
        None
    } else {
        Some(mode.window_size())
    }
}

/// Everything the window remembers between two redraws.
pub struct AppState {
    /// The month in view, as year and month.
    pub current_month: (i32, u32),
    /// The dates the user has marked.
    pub marked_dates: MarkedDateSet,
    /// Whether the window stays above other windows.
    pub is_always_on_top: bool,
    /// Whether one month is shown or three.
    pub view_mode: ViewMode,
    /// The grids last made: of the month before, of the month in view, and of
    /// the month after.
    pub calendar_days: (Vec<CalendarDay>, Vec<CalendarDay>, Vec<CalendarDay>),
}

impl Default for AppState {
    /// The state before a window is opened: January of year 1 in view, no
    /// marks, not on top, three months, and no grids made yet.
    fn default() -> (state: AppState)
        ensures
            state.current_month == (1i32, 1u32),
            1 <= state.current_month.1 <= 12,
            state.month_in_view_exists(),
            state.marked_dates@ == Set::<CalendarDate>::empty(),
            !state.is_always_on_top,
            state.view_mode == ViewMode::ThreeMonths,
            state.calendar_days.0@.len() == 0,
            state.calendar_days.1@.len() == 0,
            state.calendar_days.2@.len() == 0,
    {
        AppState {
            current_month: (1, 1),
            marked_dates: MarkedDateSet::new(),
            is_always_on_top: false,
            view_mode: ViewMode::ThreeMonths,
            calendar_days: (Vec::new(), Vec::new(), Vec::new()),
        }
    }
}

/// Whether the month `(year, month)` can be shown with its two neighbours:
/// each of the three has a grid.
pub open spec fn can_show(year: int, month: int) -> bool {
    &&& has_grid(month_before(year, month).0, month_before(year, month).1)
    &&& has_grid(year, month)
    &&& has_grid(month_after(year, month).0, month_after(year, month).1)
}

impl AppState {
    /// The month in view, as mathematical integers.
    pub open spec fn cursor(self) -> (int, int) {
        (self.current_month.0 as int, self.current_month.1 as int)
    }

    /// Whether the month in view is a month that can be held: a month 1 to
    /// 12 of a year from the first to the last. Every state that the
    /// functions of this type make has such a month in view, and they keep
    /// it so.
    pub open spec fn month_in_view_exists(self) -> bool {
        is_held_month(self.cursor().0, self.cursor().1)
    }

    /// Whether the grids held are those of `(year, month)` and its two
    /// neighbours.
    pub open spec fn shows(self, year: int, month: int) -> bool {
        &&& is_month_grid(
            self.calendar_days.0@,
            month_before(year, month).0,
            month_before(year, month).1,
        )
        &&& is_month_grid(self.calendar_days.1@, year, month)
        &&& is_month_grid(
            self.calendar_days.2@,
            month_after(year, month).0,
            month_after(year, month).1,
        )
    }

    /// Whether the grids held are those of the month in view.
    pub open spec fn is_up_to_date(self) -> bool {
        self.shows(self.cursor().0, self.cursor().1)
    }

    /// Whether `self` differs from `other` in nothing but the month in view.
    pub open spec fn same_but_month(self, other: AppState) -> bool {
        &&& self.marked_dates@ == other.marked_dates@
        &&& self.is_always_on_top == other.is_always_on_top
        &&& self.view_mode == other.view_mode
        &&& self.calendar_days == other.calendar_days
    }

    /// Whether `self` differs from `other` in nothing but the grids held.
    pub open spec fn same_but_grids(self, other: AppState) -> bool {
        &&& self.current_month == other.current_month
        &&& self.marked_dates@ == other.marked_dates@
        &&& self.is_always_on_top == other.is_always_on_top
        &&& self.view_mode == other.view_mode
    }

    /// Whether `self` differs from `other` in nothing but the marked dates.
    pub open spec fn same_but_marks(self, other: AppState) -> bool {
        &&& self.current_month == other.current_month
        &&& self.is_always_on_top == other.is_always_on_top
        &&& self.view_mode == other.view_mode
        &&& self.calendar_days == other.calendar_days
    }

    /// The state of a window opened on `today`: the month of `today` in view
    /// with its grids made, and the rest as in [`AppState::default`].
    ///
    /// Fails with [`CalendarError::InvalidDate`] when that month, the month
    /// before or the month after has no grid.
    pub fn new(today: &CalendarDate) -> (r: Result<AppState, CalendarError>)
        ensures
            match r {
                Ok(state) => {
                    &&& state.cursor() == (today@.year, today@.month)
                    &&& state.month_in_view_exists()
                    &&& can_show(today@.year, today@.month)
                    &&& state.is_up_to_date()
                    &&& state.marked_dates@ == Set::<CalendarDate>::empty()
                    &&& !state.is_always_on_top
                    &&& state.view_mode == ViewMode::ThreeMonths
                },
                Err(e) => e == CalendarError::InvalidDate && !can_show(today@.year, today@.month),
            },
    {
        let mut state = AppState::default();
        state.current_month = (today.year(), today.month());
        match state.update_calendar_days() {
            Ok(()) => Ok(state),
            Err(e) => Err(e),
        }
    }

    /// Makes the grids anew for the month in view and its two neighbours.
    ///
    /// Fails with [`CalendarError::InvalidDate`], and keeps the grids held,
    /// when one of the three months has no grid.
    pub fn update_calendar_days(&mut self) -> (r: Result<(), CalendarError>)
        ensures
            old(self).month_in_view_exists() ==> final(self).month_in_view_exists(),
            final(self).same_but_grids(*old(self)),
            match r {
                Ok(()) => can_show(old(self).cursor().0, old(self).cursor().1) && final(self).is_up_to_date(),
                Err(e) => e == CalendarError::InvalidDate && !can_show(
                    old(self).cursor().0,
                    old(self).cursor().1,
                ) && final(self).calendar_days == old(self).calendar_days,
            },
    {
        let year: i32 = self.current_month.0;
        let month: u32 = self.current_month.1;
        proof {
            lemma_month_with_grid_is_held(year as int, month as int);
            lemma_month_with_grid_is_held(
                month_before(year as int, month as int).0,
                month_before(year as int, month as int).1,
            );
            lemma_month_with_grid_is_held(
                month_after(year as int, month as int).0,
                month_after(year as int, month as int).1,
            );
        }
        let before = match previous_month(year, month) {
            Ok(found) => found,
            Err(e) => {
                return Err(e);
            },
        };
        let after = match next_month(year, month) {
            Ok(found) => found,
            Err(e) => {
                return Err(e);
            },
        };
        let before_days = match generate_calendar_days(before.0, before.1) {
            Ok(days) => days,
            Err(e) => {
                return Err(e);
            },
        };
        let days = match generate_calendar_days(year, month) {
            Ok(days) => days,
            Err(e) => {
                return Err(e);
            },
        };
        let after_days = match generate_calendar_days(after.0, after.1) {
            Ok(days) => days,
            Err(e) => {
                return Err(e);
            },
        };
        self.calendar_days = (before_days, days, after_days);
        Ok(())
    }

    /// Makes the grids anew if the month in view is no longer
    /// `shown_before`, the month that was in view when they were last made.
    ///
    /// Fails as [`AppState::update_calendar_days`] does; where the month has
    /// not changed, nothing is done.
    pub fn refresh_calendar_days(&mut self, shown_before: (i32, u32)) -> (r: Result<
        (),
        CalendarError,
    >)
        ensures
            old(self).month_in_view_exists() ==> final(self).month_in_view_exists(),
            final(self).same_but_grids(*old(self)),
            old(self).current_month == shown_before ==> r is Ok && final(self).calendar_days == old(self).calendar_days,
            old(self).current_month != shown_before ==> match r {
                Ok(()) => can_show(old(self).cursor().0, old(self).cursor().1) && final(self).is_up_to_date(),
                Err(e) => e == CalendarError::InvalidDate && !can_show(
                    old(self).cursor().0,
                    old(self).cursor().1,
                ) && final(self).calendar_days == old(self).calendar_days,
            },
    {
        if self.current_month.0 == shown_before.0 && self.current_month.1 == shown_before.1 {
            Ok(())
        } else {
            self.update_calendar_days()
        }
    }

    /// Puts the month before into view.
    ///
    /// Fails with [`CalendarError::InvalidDate`], and changes nothing, when
    /// the month in view or the month before it cannot be held.
    pub fn go_to_previous_month(&mut self) -> (r: Result<(), CalendarError>)
        ensures
            final(self).same_but_month(*old(self)),
            old(self).month_in_view_exists() ==> final(self).month_in_view_exists(),
            match r {
                Ok(()) => {
                    &&& is_held_month(old(self).cursor().0, old(self).cursor().1)
                    &&& is_held_month(final(self).cursor().0, final(self).cursor().1)
                    &&& final(self).cursor() == month_before(
                        old(self).cursor().0,
                        old(self).cursor().1,
                    )
                },
                Err(e) => {
                    &&& e == CalendarError::InvalidDate
                    &&& final(self).current_month == old(self).current_month
                    &&& !(is_held_month(old(self).cursor().0, old(self).cursor().1)
                        && is_held_month(
                        month_before(old(self).cursor().0, old(self).cursor().1).0,
                        month_before(old(self).cursor().0, old(self).cursor().1).1,
                    ))
                },
            },
    {
        match previous_month(self.current_month.0, self.current_month.1) {
            Ok(month) => {
                self.current_month = month;
                Ok(())
            },
            Err(e) => Err(e),
        }
    }

    /// Puts the month after into view.
    ///
    /// Fails with [`CalendarError::InvalidDate`], and changes nothing, when
    /// the month in view or the month after it cannot be held.
    pub fn go_to_next_month(&mut self) -> (r: Result<(), CalendarError>)
        ensures
            final(self).same_but_month(*old(self)),
            old(self).month_in_view_exists() ==> final(self).month_in_view_exists(),
            match r {
                Ok(()) => {
                    &&& is_held_month(old(self).cursor().0, old(self).cursor().1)
                    &&& is_held_month(final(self).cursor().0, final(self).cursor().1)
                    &&& final(self).cursor() == month_after(
                        old(self).cursor().0,
                        old(self).cursor().1,
                    )
                },
                Err(e) => {
                    &&& e == CalendarError::InvalidDate
                    &&& final(self).current_month == old(self).current_month
                    &&& !(is_held_month(old(self).cursor().0, old(self).cursor().1)
                        && is_held_month(
                        month_after(old(self).cursor().0, old(self).cursor().1).0,
                        month_after(old(self).cursor().0, old(self).cursor().1).1,
                    ))
                },
            },
    {
        match next_month(self.current_month.0, self.current_month.1) {
            Ok(month) => {
                self.current_month = month;
                Ok(())
            },
            Err(e) => Err(e),
        }
    }

    /// Puts the month of `today` into view.
    pub fn go_to_today(&mut self, today: &CalendarDate)
        ensures
            final(self).same_but_month(*old(self)),
            final(self).cursor() == (today@.year, today@.month),
            final(self).month_in_view_exists(),
    {
        self.current_month = (today.year(), today.month());
    }

    /// Turns staying on top on if it is off, and off if it is on.
    pub fn toggle_always_on_top(&mut self)
        ensures
            old(self).month_in_view_exists() ==> final(self).month_in_view_exists(),
            final(self).is_always_on_top == !old(self).is_always_on_top,
            final(self).current_month == old(self).current_month,
            final(self).marked_dates@ == old(self).marked_dates@,
            final(self).view_mode == old(self).view_mode,
            final(self).calendar_days == old(self).calendar_days,
    {
        self.is_always_on_top = !self.is_always_on_top;
    }

    /// Shows one month if three are shown, and three if one is.
    pub fn toggle_view_mode(&mut self)
        ensures
            old(self).month_in_view_exists() ==> final(self).month_in_view_exists(),
            final(self).view_mode == match old(self).view_mode {
                ViewMode::SingleMonth => ViewMode::ThreeMonths,
                ViewMode::ThreeMonths => ViewMode::SingleMonth,
            },
            final(self).current_month == old(self).current_month,
            final(self).marked_dates@ == old(self).marked_dates@,
            final(self).is_always_on_top == old(self).is_always_on_top,
            final(self).calendar_days == old(self).calendar_days,
    {
        self.view_mode = self.view_mode.switched();
    }

    /// Takes all marks off.
    pub fn clear_marks(&mut self)
        ensures
            old(self).month_in_view_exists() ==> final(self).month_in_view_exists(),
            final(self).same_but_marks(*old(self)),
            final(self).marked_dates@ == Set::<CalendarDate>::empty(),
    {
        self.marked_dates.clear();
    }

    /// What a click on a cell does: a day of the month in view gets marked,
    /// or loses its mark; a borrowed day stays as it is.
    pub fn click_day(&mut self, day: &CalendarDay)
        ensures
            old(self).month_in_view_exists() ==> final(self).month_in_view_exists(),
            final(self).same_but_marks(*old(self)),
            final(self).marked_dates@ == if day.is_current_month {
                toggled(old(self).marked_dates@, day.date)
            } else {
                old(self).marked_dates@
            },
    {
        if day.is_current_month {
            self.marked_dates.toggle(day.date);
        }
    }
}

} // verus!
