//! Control logic for a small fan-and-power daemon on a single-board computer.
//!
//! Two control loops make up the daemon: a pulse decoder that turns a burst of
//! button pulses into a reboot or power-off request, and a fan controller that
//! maps temperature samples to a fan level through a step table with
//! hysteresis.  This crate holds the decisions both loops make — pulse
//! classification, temperature parsing, target-level lookup, hysteresis — as
//! verified functions on plain values; the hardware and OS glue around them
//! lives outside.

pub mod config;
pub mod fan;
pub mod pulse;
pub mod steps;
pub mod temperature;
