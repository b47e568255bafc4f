//! A Chinese perpetual calendar (中华万年历): dates of the Gregorian calendar, their lunar
//! reading and solar terms, the month grids of the calendar view, and the keys that move its
//! selected date.

pub mod date;
pub mod lunnar;
pub mod calendar;
pub mod month;
