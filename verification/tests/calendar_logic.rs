use feather_calendar::logic::calendar_logic::{generate_calendar_days, CalendarDay, CalendarError};
use feather_calendar::logic::date::{CalendarDate, Weekday};

fn date(year: i32, month: u32, day: u32) -> CalendarDate {
    CalendarDate::from_ymd_opt(year, month, day).unwrap()
}

fn key(day: &CalendarDay) -> (i32, u32, u32) {
    (day.date.year(), day.date.month(), day.date.day())
}

fn days_in(year: i32, month: u32) -> usize {
    let leap: bool = year % 4 == 0 && (year % 100 != 0 || year % 400 == 0);
    match month {
        2 => {
            if leap {
                29
            } else {
                28
            }
        }
        4 | 6 | 9 | 11 => 30,
        _ => 31,
    }
}

#[test]
fn test_generate_calendar_for_july_2024() {
    let year: i32 = 2024;
    let month: u32 = 7;
    let days = generate_calendar_days(year, month).unwrap();

    // July 2024 starts on a Monday, so the grid starts on Sunday, June 30th.
    // It has 31 days; the last one, July 31st, is a Wednesday, so the grid
    // ends on Saturday, August 3rd: 1 + 31 + 3 = 35 cells.
    assert_eq!(days.len(), 35);

    assert_eq!(days[0].date, CalendarDate::from_ymd_opt(2024, 6, 30).unwrap());
    assert_eq!(days[0].is_current_month, false);

    let first_day_of_month =
        days.iter().find(|d| d.date.day() == 1 && d.is_current_month).unwrap();
    assert_eq!(first_day_of_month.date.weekday(), Weekday::Mon);

    let current_month_days = days.iter().filter(|d| d.is_current_month).count();
    assert_eq!(current_month_days, 31);

    assert_eq!(days.last().unwrap().date, CalendarDate::from_ymd_opt(2024, 8, 3).unwrap());
    assert_eq!(days.last().unwrap().is_current_month, false);
}

#[test]
fn july_2024_holds_july_first_as_a_day_of_the_month() {
    let days = generate_calendar_days(2024, 7).unwrap();
    assert_eq!(days[1].date, date(2024, 7, 1));
    assert!(days[1].is_current_month);
    assert_eq!(days[1].date.weekday(), Weekday::Mon);
    assert_eq!(days[31].date, date(2024, 7, 31));
    assert!(days[31].is_current_month);
    assert_eq!(days[32].date, date(2024, 8, 1));
    assert!(!days[32].is_current_month);
}

#[test]
fn february_of_a_leap_year_has_29_days_of_the_month() {
    let days = generate_calendar_days(2024, 2).unwrap();
    assert_eq!(days.iter().filter(|d| d.is_current_month).count(), 29);
    assert_eq!(days.len(), 35);
    assert_eq!(days[0].date, date(2024, 1, 28));
    assert_eq!(days.last().unwrap().date, date(2024, 3, 2));
}

#[test]
fn february_of_a_common_year_has_28_days_of_the_month() {
    let days = generate_calendar_days(2023, 2).unwrap();
    assert_eq!(days.iter().filter(|d| d.is_current_month).count(), 28);
    assert_eq!(days.len(), 35);
}

#[test]
fn century_years_are_leap_only_every_400_years() {
    let in_1900 = generate_calendar_days(1900, 2).unwrap();
    assert_eq!(in_1900.iter().filter(|d| d.is_current_month).count(), 28);
    let in_2000 = generate_calendar_days(2000, 2).unwrap();
    assert_eq!(in_2000.iter().filter(|d| d.is_current_month).count(), 29);
}

#[test]
fn a_february_that_starts_on_sunday_fills_four_weeks() {
    let days = generate_calendar_days(2015, 2).unwrap();
    assert_eq!(days.len(), 28);
    assert_eq!(days[0].date, date(2015, 2, 1));
    assert!(days.iter().all(|d| d.is_current_month));
    assert_eq!(days[27].date, date(2015, 2, 28));
}

#[test]
fn a_long_month_that_starts_late_in_the_week_fills_six_weeks() {
    let days = generate_calendar_days(2024, 3).unwrap();
    assert_eq!(days.len(), 42);
    assert_eq!(days[0].date, date(2024, 2, 25));
    assert_eq!(days[5].date, date(2024, 3, 1));
    assert_eq!(days[41].date, date(2024, 4, 6));
}

#[test]
fn a_month_that_ends_on_saturday_borrows_nothing_after() {
    let days = generate_calendar_days(2024, 8).unwrap();
    assert_eq!(days.last().unwrap().date, date(2024, 8, 31));
    assert!(days.last().unwrap().is_current_month);
    assert_eq!(days.last().unwrap().date.weekday(), Weekday::Sat);
}

#[test]
fn a_month_that_starts_on_sunday_borrows_nothing_before() {
    let days = generate_calendar_days(2024, 9).unwrap();
    assert_eq!(days[0].date, date(2024, 9, 1));
    assert!(days[0].is_current_month);
    assert_eq!(days[0].date.weekday(), Weekday::Sun);
}

#[test]
fn every_grid_is_made_of_whole_weeks() {
    for year in 1895..2105 {
        for month in 1..=12 {
            let days = generate_calendar_days(year, month).unwrap();
            assert_eq!(days.len() % 7, 0, "{}/{}", year, month);
            assert!(days.len() == 28 || days.len() == 35 || days.len() == 42);
        }
    }
}

#[test]
fn every_grid_holds_each_day_of_its_month_once() {
    for year in 1895..2105 {
        for month in 1..=12 {
            let days = generate_calendar_days(year, month).unwrap();
            let of_month: Vec<&CalendarDay> = days.iter().filter(|d| d.is_current_month).collect();
            assert_eq!(of_month.len(), days_in(year, month), "{}/{}", year, month);
            for (i, day) in of_month.iter().enumerate() {
                assert_eq!(key(day), (year, month, i as u32 + 1));
            }
            for day in days.iter().filter(|d| !d.is_current_month) {
                assert!(day.date.year() != year || day.date.month() != month);
            }
        }
    }
}

#[test]
fn every_grid_runs_from_sunday_to_saturday() {
    for year in 1895..2105 {
        for month in 1..=12 {
            let days = generate_calendar_days(year, month).unwrap();
            assert_eq!(days[0].date.weekday(), Weekday::Sun, "{}/{}", year, month);
            assert_eq!(days.last().unwrap().date.weekday(), Weekday::Sat, "{}/{}", year, month);
            for (i, day) in days.iter().enumerate() {
                assert_eq!(day.date.weekday().num_days_from_sunday() as usize, i % 7);
            }
        }
    }
}

#[test]
fn every_grid_ascends_by_date() {
    for year in 1995..2035 {
        for month in 1..=12 {
            let days = generate_calendar_days(year, month).unwrap();
            for pair in days.windows(2) {
                assert!(key(&pair[0]) < key(&pair[1]), "{}/{}", year, month);
                assert_eq!(pair[0].date.checked_add_days(1), Some(pair[1].date));
            }
        }
    }
}

#[test]
fn making_a_grid_twice_gives_the_same_cells() {
    for month in 1..=12 {
        let once = generate_calendar_days(2024, month).unwrap();
        let twice = generate_calendar_days(2024, month).unwrap();
        assert_eq!(once, twice);
    }
}

#[test]
fn december_borrows_from_january_of_the_next_year() {
    let days = generate_calendar_days(2024, 12).unwrap();
    assert_eq!(days.len(), 35);
    assert_eq!(days[30].date, date(2024, 12, 31));
    assert_eq!(days[31], CalendarDay { date: date(2025, 1, 1), is_current_month: false });
    assert_eq!(days[34], CalendarDay { date: date(2025, 1, 4), is_current_month: false });
}

#[test]
fn january_borrows_from_december_of_the_year_before() {
    let days = generate_calendar_days(2025, 1).unwrap();
    assert_eq!(days[0], CalendarDay { date: date(2024, 12, 29), is_current_month: false });
    assert_eq!(days[2], CalendarDay { date: date(2024, 12, 31), is_current_month: false });
    assert_eq!(days[3], CalendarDay { date: date(2025, 1, 1), is_current_month: true });
}

#[test]
fn a_month_that_does_not_exist_is_refused() {
    assert_eq!(generate_calendar_days(2024, 0), Err(CalendarError::InvalidDate));
    assert_eq!(generate_calendar_days(2024, 13), Err(CalendarError::InvalidDate));
    assert_eq!(generate_calendar_days(2024, u32::MAX), Err(CalendarError::InvalidDate));
    assert_eq!(generate_calendar_days(0, 0), Err(CalendarError::InvalidDate));
}

#[test]
fn a_year_that_cannot_be_held_is_refused() {
    assert_eq!(generate_calendar_days(262143, 1), Err(CalendarError::InvalidDate));
    assert_eq!(generate_calendar_days(-262144, 12), Err(CalendarError::InvalidDate));
    assert_eq!(generate_calendar_days(i32::MAX, 12), Err(CalendarError::InvalidDate));
    assert_eq!(generate_calendar_days(i32::MIN, 1), Err(CalendarError::InvalidDate));
}

#[test]
fn a_grid_that_leaves_the_dates_that_can_be_held_is_refused() {
    // December of the last year ends on a Monday: its week runs into a year
    // that cannot be held. January of the first year starts on a Thursday.
    assert_eq!(date(262142, 12, 31).weekday(), Weekday::Mon);
    assert_eq!(generate_calendar_days(262142, 12), Err(CalendarError::InvalidDate));
    assert_eq!(date(-262143, 1, 1).weekday(), Weekday::Thu);
    assert_eq!(generate_calendar_days(-262143, 1), Err(CalendarError::InvalidDate));
}

#[test]
fn the_months_next_to_the_ends_have_grids() {
    let late = generate_calendar_days(262142, 11).unwrap();
    assert_eq!(late.iter().filter(|d| d.is_current_month).count(), 30);
    assert_eq!(late.last().unwrap().date.weekday(), Weekday::Sat);
    let early = generate_calendar_days(-262143, 2).unwrap();
    assert_eq!(early[0].date.weekday(), Weekday::Sun);
    assert_eq!(early[0].date.year(), -262143);
}

#[test]
fn year_zero_and_years_before_it_have_grids() {
    let days = generate_calendar_days(0, 2).unwrap();
    assert_eq!(days.iter().filter(|d| d.is_current_month).count(), 29);
    let days = generate_calendar_days(-1, 2).unwrap();
    assert_eq!(days.iter().filter(|d| d.is_current_month).count(), 28);
    let days = generate_calendar_days(1, 1).unwrap();
    assert_eq!(days[0].date, date(0, 12, 31));
    assert_eq!(days[1].date, date(1, 1, 1));
    assert_eq!(days[1].date.weekday(), Weekday::Mon);
}

#[test]
fn a_december_that_ends_on_saturday_stays_in_its_year() {
    let days = generate_calendar_days(2022, 12).unwrap();
    assert_eq!(days.last().unwrap().date, date(2022, 12, 31));
    assert!(days.iter().all(|d| d.date.year() == 2022));
}

#[test]
fn a_january_that_starts_on_sunday_stays_in_its_year() {
    let days = generate_calendar_days(2023, 1).unwrap();
    assert_eq!(days[0].date, date(2023, 1, 1));
    assert!(days.iter().all(|d| d.date.year() == 2023));
    assert_eq!(days.last().unwrap().date, date(2023, 2, 4));
}
