//! A calendar month grid model.
//!
//! Given a year and a month, this library decides how a month view is laid
//! out on a fixed seven-column grid: how many week rows are needed, which
//! calendar day occupies each cell, whether that day belongs to the previous,
//! the current or the next month, and which cell shows the selected day.
//! The weekday header labels are provided as well.
//!
//! All of it is pure arithmetic on plain values under the proleptic
//! Gregorian calendar; every function carries a contract that pins its
//! result down.

pub mod date;
pub mod grid;
pub mod labels;
