//! A battery-level watchdog: the rules that decide, poll by poll, when a
//! low-battery command is due.
//!
//! The library holds no clock, no process and no battery driver. A caller
//! samples the batteries, hands each sample to a [`watchdog::Watchdog`] and
//! carries out the [`watchdog::Action`] it gets back.
//!
//! - [`percent`]: charge levels as binary32 bit patterns, and their order.
//! - [`watchdog`]: samples, the per-device flag and the watchdog itself.
//! - [`trace`]: theorems about whole runs of samples.
//! - [`number`]: the validator for numeric command-line values.
//! - [`command`]: the command line that goes to the shell.

pub mod command;
pub mod number;
pub mod percent;
pub mod trace;
pub mod watchdog;
