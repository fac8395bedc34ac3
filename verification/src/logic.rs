//! Calendar arithmetic and the month grid built on it.

pub mod calendar_logic;
pub mod date;
pub mod gregorian;
pub mod grid_laws;
pub mod month_cursor;
