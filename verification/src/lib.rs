//! Month grids for a small desktop calendar: the day cells of a month laid
//! out in full weeks, the dates a user has marked, and the month in view.

pub mod app;
pub mod logic;
pub mod marked_dates;
pub mod ui;
