//! Conversion of a DC power monitor's binary sample log into CSV text.
//!
//! The log is a bare run of eight-byte little-endian samples: a 32-bit
//! counter of milliseconds, a 16-bit voltage code and a 16-bit current code.
//! Each sample becomes one CSV row holding a timestamp in milliseconds, the
//! voltage in volts and the current in milliamperes.
//!
//! - [`record`] reads samples out of the bytes of a log.
//! - [`decimal`] writes integers and fixed-point numbers as decimal text.
//! - [`timestamp`] turns the device counter into the timestamp column.
//! - [`csv`] lays out the header and the rows.
//! - [`convert`] converts a whole log, and states what holds of every
//!   conversion.
//! - [`cmd_args`] holds the options of a run and finds the start time of a
//!   log in its file name.
//!
//! Three modules lean on other crates and are believed, not proved:
//! [`pattern`] searches with `regex`, [`calendar`] reckons with `chrono` and
//! `chrono-tz`, and [`cli`] reads the command line with `clap`.
//!
//! Voltages and currents are kept as scaled integers: the calibration
//! factors 0.00125 V and 0.1 mA per code are exact in hundred-thousandths of
//! a volt and tenths of a milliampere, so every digit of a row is exact.

pub mod calendar;
pub mod cli;
pub mod cmd_args;
pub mod convert;
pub mod csv;
pub mod decimal;
pub mod pattern;
pub mod record;
pub mod timestamp;
