//! Habit tracking: numerical counters and bit-packed checklists with per-day progress.

pub mod bits;
pub mod command;
pub mod day;
pub mod habit;
pub mod laws;
pub mod plot;
pub mod progress;
pub mod store;
pub mod text;

pub use crate::day::Day;
pub use crate::habit::{Habit, HabitType};
pub use crate::plot::Chart;
