//! Core of an interval-timer application: a millisecond-precision countdown
//! clock, a circular cursor over an ordered list, and the sequencer that runs
//! timers one after another, looping or stopping after the last one.
//!
//! All time-dependent operations take the current instant as an explicit
//! millisecond value on a single monotone timeline; the host supplies it from
//! its own clock source once per frame.

pub mod clock;
pub mod countdown;
pub mod fmt_digits;
pub mod keys_and_values;
pub mod queue;
pub mod settings_parser;
pub mod sound;
