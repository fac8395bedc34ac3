use chrono::{Datelike, Months, NaiveDate, TimeDelta};
use feather_calendar::logic::calendar_logic::generate_calendar_days;
use feather_calendar::logic::date::CalendarDate;
use feather_calendar::logic::month_cursor::{next_month, previous_month};

fn naive(date: &CalendarDate) -> NaiveDate {
    NaiveDate::from_ymd_opt(date.year(), date.month(), date.day()).unwrap()
}

fn held(date: NaiveDate) -> CalendarDate {
    CalendarDate::from_ymd_opt(date.year(), date.month(), date.day()).unwrap()
}

/// The grid of a month made with chrono's dates alone: `None` where a date
/// of it cannot be made.
fn grid_by_chrono(year: i32, month: u32) -> Option<Vec<(NaiveDate, bool)>> {
    let first = NaiveDate::from_ymd_opt(year, month, 1)?;
    let last = if month == 12 {
        NaiveDate::from_ymd_opt(year.checked_add(1)?, 1, 1)?.pred_opt()?
    } else {
        NaiveDate::from_ymd_opt(year, month + 1, 1)?.pred_opt()?
    };
    let mut days: Vec<(NaiveDate, bool)> = Vec::new();
    let lead: u32 = first.weekday().num_days_from_sunday();
    for i in (0..lead).rev() {
        days.push((first.checked_sub_signed(TimeDelta::try_days(i as i64 + 1)?)?, false));
    }
    for day in first.iter_days().take(last.day() as usize) {
        days.push((day, true));
    }
    let trail: u32 = 6 - last.weekday().num_days_from_sunday();
    for i in 1..=trail {
        days.push((last.checked_add_signed(TimeDelta::try_days(i as i64)?)?, false));
    }
    Some(days)
}

fn same_grid(year: i32, month: u32) {
    let expected = grid_by_chrono(year, month);
    match generate_calendar_days(year, month) {
        Ok(days) => {
            let expected = expected.unwrap();
            assert_eq!(days.len(), expected.len(), "{}/{}", year, month);
            for (day, (date, of_month)) in days.iter().zip(expected.iter()) {
                assert_eq!(naive(&day.date), *date, "{}/{}", year, month);
                assert_eq!(day.is_current_month, *of_month, "{}/{}", year, month);
            }
        }
        Err(_) => assert_eq!(expected, None, "{}/{}", year, month),
    }
}

#[test]
fn grids_agree_with_chrono_over_four_centuries() {
    for year in 1800..2200 {
        for month in 1..=12 {
            same_grid(year, month);
        }
    }
}

#[test]
fn grids_agree_with_chrono_around_year_zero() {
    for year in -5..5 {
        for month in 0..=13 {
            same_grid(year, month);
        }
    }
}

#[test]
fn grids_agree_with_chrono_at_the_ends_of_the_years_held() {
    for year in [i32::MIN, -262145, -262144, -262143, -262142, 262141, 262142, 262143, 262144, i32::MAX] {
        for month in 0..=13 {
            same_grid(year, month);
        }
    }
}

#[test]
fn dates_exist_where_chrono_has_them() {
    for year in [-262144, -262143, -401, -400, -100, -4, -1, 0, 1, 4, 100, 1900, 2000, 2023, 2024, 262142, 262143] {
        for month in 0..=13 {
            for day in 0..=32 {
                let ours = CalendarDate::from_ymd_opt(year, month, day);
                let theirs = NaiveDate::from_ymd_opt(year, month, day);
                assert_eq!(ours.is_some(), theirs.is_some(), "{}-{}-{}", year, month, day);
                if let Some(date) = ours {
                    assert_eq!((date.year(), date.month(), date.day()), (year, month, day));
                }
            }
        }
    }
}

#[test]
fn day_numbers_agree_with_chrono() {
    assert_eq!(CalendarDate::from_ymd_opt(1, 1, 1).unwrap().num_days_from_ce(), 1);
    assert_eq!(CalendarDate::from_ymd_opt(0, 12, 31).unwrap().num_days_from_ce(), 0);
    assert_eq!(CalendarDate::from_ymd_opt(1999, 9, 3).unwrap().num_days_from_ce(), 730_000);
    assert_eq!(CalendarDate::from_ymd_opt(2024, 7, 1).unwrap().num_days_from_ce(), 739_068);
    assert_eq!(CalendarDate::from_ymd_opt(262142, 12, 31).unwrap().num_days_from_ce(), 95_745_399);
    assert_eq!(CalendarDate::from_ymd_opt(-262143, 1, 1).unwrap().num_days_from_ce(), -95_746_129);
    let mut date = NaiveDate::from_ymd_opt(-820, 1, 1).unwrap();
    let end = NaiveDate::from_ymd_opt(2430, 1, 1).unwrap();
    while date < end {
        let ours = held(date);
        assert_eq!(ours.num_days_from_ce(), date.num_days_from_ce(), "{}", date);
        date = date.succ_opt().unwrap();
    }
    for year in (-262143..262142).step_by(97) {
        for (month, day) in [(1, 1), (2, 28), (3, 1), (12, 31)] {
            let date = NaiveDate::from_ymd_opt(year, month, day).unwrap();
            assert_eq!(held(date).num_days_from_ce(), date.num_days_from_ce(), "{}", date);
        }
    }
}

#[test]
fn weekdays_follow_the_day_number() {
    let mut date = NaiveDate::from_ymd_opt(1583, 1, 1).unwrap();
    let end = NaiveDate::from_ymd_opt(2430, 1, 1).unwrap();
    while date < end {
        let ours = held(date);
        let n: i32 = ours.num_days_from_ce();
        assert_eq!(ours.weekday().num_days_from_sunday() as i32, n.rem_euclid(7), "{}", date);
        assert_eq!(ours.weekday().num_days_from_sunday(), date.weekday().num_days_from_sunday());
        date = date.succ_opt().unwrap();
    }
    for year in (-262143..262142).step_by(89) {
        let ours = CalendarDate::from_ymd_opt(year, 6, 15).unwrap();
        let n: i32 = ours.num_days_from_ce();
        assert_eq!(ours.weekday().num_days_from_sunday() as i32, n.rem_euclid(7), "{}", year);
    }
}

#[test]
fn moving_by_days_moves_the_day_number() {
    let starts = [(2024, 2, 28), (2023, 12, 31), (1, 1, 1), (-1, 3, 1), (1900, 2, 28)];
    for (year, month, day) in starts {
        let start = CalendarDate::from_ymd_opt(year, month, day).unwrap();
        for days in [-800_000i64, -366, -31, -7, -1, 0, 1, 2, 6, 29, 365, 146_097, 800_000] {
            let moved = start.checked_add_days(days).unwrap();
            assert_eq!(moved.num_days_from_ce() as i64, start.num_days_from_ce() as i64 + days);
            assert_eq!(
                naive(&moved),
                naive(&start).checked_add_signed(TimeDelta::try_days(days).unwrap()).unwrap()
            );
        }
        let before = start.pred_opt().unwrap();
        assert_eq!(before.num_days_from_ce(), start.num_days_from_ce() - 1);
        assert_eq!(naive(&before), naive(&start).pred_opt().unwrap());
    }
}

#[test]
fn moving_by_months_agrees_with_chrono() {
    for month in 1..=12 {
        for day in [1, 15, 28, 29, 30, 31] {
            let Some(start) = CalendarDate::from_ymd_opt(2023, month, day) else {
                continue;
            };
            for months in [0u32, 1, 2, 11, 12, 13, 25, 1200] {
                let on = start.checked_add_months(months).unwrap();
                let back = start.checked_sub_months(months).unwrap();
                assert_eq!(naive(&on), naive(&start).checked_add_months(Months::new(months)).unwrap());
                assert_eq!(
                    naive(&back),
                    naive(&start).checked_sub_months(Months::new(months)).unwrap()
                );
            }
        }
    }
}

#[test]
fn the_months_next_to_a_month_agree_with_chrono() {
    for year in [-262143, -1, 0, 1, 2023, 2024, 262142] {
        for month in 1..=12 {
            let first = NaiveDate::from_ymd_opt(year, month, 1).unwrap();
            let before = first.checked_sub_months(Months::new(1)).map(|d| (d.year(), d.month()));
            let after = first.checked_add_months(Months::new(1)).map(|d| (d.year(), d.month()));
            assert_eq!(previous_month(year, month).ok(), before);
            assert_eq!(next_month(year, month).ok(), after);
        }
    }
}
