//! Conversion between epoch timestamps (seconds, milliseconds, microseconds,
//! nanoseconds) and human-readable dates.

pub mod text;
pub mod unit;
pub mod decimal;
pub mod datetime;
pub mod outcome;
pub mod timestamp;
pub mod tz;
pub mod render;
pub mod date;
pub mod process;
pub mod cli;
