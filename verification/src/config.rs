//! The timer's configuration: colors, blink, refresh rates and Pomodoro
//! settings, with the defaults every missing value falls back to.
//!
//! Loading the configuration from disk belongs to the surrounding
//! program; the library holds the plain values and resolves color names.

use crate::color::{TimerColor, color_from_name, spec_parse_color};
use vstd::prelude::*;

verus! {

/// Default color name of the countdown display.
pub fn default_countdown_color() -> (c: String)
    ensures
        c@ == "cyan"@,
{
    "cyan".to_owned()
}

/// Default color name of the stopwatch display.
pub fn default_stopwatch_color() -> (c: String)
    ensures
        c@ == "green"@,
{
    "green".to_owned()
}

/// Default color name of the time's-up banner.
pub fn default_times_up_color() -> (c: String)
    ensures
        c@ == "red"@,
{
    "red".to_owned()
}

/// Default color name of instructions and other UI text.
pub fn default_ui_text_color() -> (c: String)
    ensures
        c@ == "grey"@,
{
    "grey".to_owned()
}

/// Default color name of Pomodoro work sessions.
pub fn default_pomodoro_work_color() -> (c: String)
    ensures
        c@ == "red"@,
{
    "red".to_owned()
}

/// Default color name of Pomodoro break sessions.
pub fn default_pomodoro_break_color() -> (c: String)
    ensures
        c@ == "green"@,
{
    "green".to_owned()
}

/// By default the separator does not blink.
pub fn default_blink_separator() -> (b: bool)
    ensures
        b == false,
{
    false
}

/// Default countdown refresh rate in milliseconds.
pub fn default_countdown_refresh_rate() -> (r: u64)
    ensures
        r == 200,
{
    200
}

/// Default stopwatch refresh rate in milliseconds.
pub fn default_stopwatch_refresh_rate() -> (r: u64)
    ensures
        r == 100,
{
    100
}

/// Default Pomodoro work duration in minutes.
pub fn default_pomodoro_work_duration() -> (m: u64)
    ensures
        m == 25,
{
    25
}

/// Default Pomodoro break duration in minutes.
pub fn default_pomodoro_break_duration() -> (m: u64)
    ensures
        m == 5,
{
    5
}

/// Default Pomodoro cycle count; 0 means unbounded.
pub fn default_pomodoro_cycles() -> (c: u64)
    ensures
        c == 0,
{
    0
}

/// By default no sound plays when a Pomodoro session ends.
pub fn default_pomodoro_sound() -> (b: bool)
    ensures
        b == false,
{
    false
}

/// Default Pomodoro refresh rate in milliseconds.
pub fn default_pomodoro_refresh_rate() -> (r: u64)
    ensures
        r == 200,
{
    200
}

/// Color names for the timer's display elements.
#[derive(Debug, Clone)]
pub struct ColorScheme {
    /// Color of the countdown display.
    pub countdown: String,
    /// Color of the stopwatch display.
    pub stopwatch: String,
    /// Color of the time's-up banner.
    pub times_up: String,
    /// Color of instructions and other UI text.
    pub ui_text: String,
    /// Color of Pomodoro work sessions.
    pub pomodoro_work: String,
    /// Color of Pomodoro break sessions.
    pub pomodoro_break: String,
}

impl Default for ColorScheme {
    /// The default color names.
    fn default() -> (c: Self)
        ensures
            c.countdown@ == "cyan"@,
            c.stopwatch@ == "green"@,
            c.times_up@ == "red"@,
            c.ui_text@ == "grey"@,
            c.pomodoro_work@ == "red"@,
            c.pomodoro_break@ == "green"@,
    {
        ColorScheme {
            countdown: default_countdown_color(),
            stopwatch: default_stopwatch_color(),
            times_up: default_times_up_color(),
            ui_text: default_ui_text_color(),
            pomodoro_work: default_pomodoro_work_color(),
            pomodoro_break: default_pomodoro_break_color(),
        }
    }
}

/// Settings of the Pomodoro timer.
#[derive(Debug, Clone)]
pub struct PomodoroSettings {
    /// Work session duration in minutes.
    pub work_duration: u64,
    /// Break session duration in minutes.
    pub break_duration: u64,
    /// Cycles to run; 0 means unbounded.
    pub cycles: u64,
    /// Whether to play a sound when sessions end (declared, not
    /// implemented).
    pub sound_enabled: bool,
    /// Refresh rate in milliseconds of the Pomodoro display.
    pub refresh_rate: u64,
}

impl Default for PomodoroSettings {
    /// The default Pomodoro settings.
    fn default() -> (s: Self)
        ensures
            s.work_duration == 25,
            s.break_duration == 5,
            s.cycles == 0,
            s.sound_enabled == false,
            s.refresh_rate == 200,
    {
        PomodoroSettings {
            work_duration: default_pomodoro_work_duration(),
            break_duration: default_pomodoro_break_duration(),
            cycles: default_pomodoro_cycles(),
            sound_enabled: default_pomodoro_sound(),
            refresh_rate: default_pomodoro_refresh_rate(),
        }
    }
}

/// The timer's configuration.
#[derive(Debug, Clone)]
pub struct Config {
    /// Color names for the display elements.
    pub colors: ColorScheme,
    /// Whether the time separator blinks.
    pub blink_separator: bool,
    /// Refresh rate in milliseconds of the countdown display.
    pub countdown_refresh_rate: u64,
    /// Refresh rate in milliseconds of the stopwatch display.
    pub stopwatch_refresh_rate: u64,
    /// Settings of the Pomodoro timer.
    pub pomodoro: PomodoroSettings,
}

impl Default for Config {
    /// The default configuration.
    fn default() -> (c: Self)
        ensures
            c.colors.countdown@ == "cyan"@,
            c.colors.stopwatch@ == "green"@,
            c.colors.times_up@ == "red"@,
            c.colors.ui_text@ == "grey"@,
            c.colors.pomodoro_work@ == "red"@,
            c.colors.pomodoro_break@ == "green"@,
            c.blink_separator == false,
            c.countdown_refresh_rate == 200,
            c.stopwatch_refresh_rate == 100,
            c.pomodoro.work_duration == 25,
            c.pomodoro.break_duration == 5,
            c.pomodoro.cycles == 0,
            c.pomodoro.sound_enabled == false,
            c.pomodoro.refresh_rate == 200,
    {
        Config {
            colors: Default::default(),
            blink_separator: default_blink_separator(),
            countdown_refresh_rate: default_countdown_refresh_rate(),
            stopwatch_refresh_rate: default_stopwatch_refresh_rate(),
            pomodoro: Default::default(),
        }
    }
}

impl Config {
    /// Resolves a color name through the fixed lookup table,
    /// case-insensitively; unknown names fall back to the terminal
    /// default.
    pub fn parse_color(&self, color_name: &str) -> (c: TimerColor)
        ensures
            c == spec_parse_color(color_name@),
    {
        color_from_name(color_name)
    }

    /// The countdown display color.
    pub fn countdown_color(&self) -> (c: TimerColor)
        ensures
            c == spec_parse_color(self.colors.countdown@),
    {
        color_from_name(self.colors.countdown.as_str())
    }

    /// The stopwatch display color.
    pub fn stopwatch_color(&self) -> (c: TimerColor)
        ensures
            c == spec_parse_color(self.colors.stopwatch@),
    {
        color_from_name(self.colors.stopwatch.as_str())
    }

    /// The time's-up banner color.
    pub fn times_up_color(&self) -> (c: TimerColor)
        ensures
            c == spec_parse_color(self.colors.times_up@),
    {
        color_from_name(self.colors.times_up.as_str())
    }

    /// The UI text color.
    pub fn ui_text_color(&self) -> (c: TimerColor)
        ensures
            c == spec_parse_color(self.colors.ui_text@),
    {
        color_from_name(self.colors.ui_text.as_str())
    }

    /// The Pomodoro work session color.
    pub fn pomodoro_work_color(&self) -> (c: TimerColor)
        ensures
            c == spec_parse_color(self.colors.pomodoro_work@),
    {
        color_from_name(self.colors.pomodoro_work.as_str())
    }

    /// The Pomodoro break session color.
    pub fn pomodoro_break_color(&self) -> (c: TimerColor)
        ensures
            c == spec_parse_color(self.colors.pomodoro_break@),
    {
        color_from_name(self.colors.pomodoro_break.as_str())
    }
}

} // verus!
