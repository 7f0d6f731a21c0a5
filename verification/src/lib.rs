//! A terminal timer library: countdown, stopwatch and Pomodoro session logic.
//!
//! The crate holds the pure core of a terminal timer: duration parsing and
//! formatting, glyph-art rendering of a time display, a render-diff planner
//! that keeps terminal redraws minimal, and the session state machines that
//! drive countdown, stopwatch and Pomodoro runs. Terminal I/O itself stays
//! outside; the library computes what to draw and when.

pub mod color;
pub mod config;
pub mod frame;
pub mod glyphs;
pub mod parse;
pub mod session;
pub mod timefmt;
