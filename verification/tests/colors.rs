use clockit::color::{color_from_name, TimerColor};
use clockit::config::{
    default_blink_separator, default_countdown_color, default_countdown_refresh_rate,
    default_pomodoro_break_color, default_pomodoro_break_duration, default_pomodoro_cycles,
    default_pomodoro_refresh_rate, default_pomodoro_sound, default_pomodoro_work_color,
    default_pomodoro_work_duration, default_stopwatch_color, default_stopwatch_refresh_rate,
    default_times_up_color, default_ui_text_color, Config,
};

#[test]
fn known_color_names_resolve() {
    assert_eq!(color_from_name("black"), TimerColor::Black);
    assert_eq!(color_from_name("cyan"), TimerColor::Cyan);
    assert_eq!(color_from_name("dark_magenta"), TimerColor::DarkMagenta);
    assert_eq!(color_from_name("yellow"), TimerColor::Yellow);
}

#[test]
fn color_lookup_is_case_insensitive() {
    assert_eq!(color_from_name("RED"), TimerColor::Red);
    assert_eq!(color_from_name("Dark_Blue"), TimerColor::DarkBlue);
}

#[test]
fn grey_and_gray_both_spell_the_color() {
    assert_eq!(color_from_name("grey"), TimerColor::Grey);
    assert_eq!(color_from_name("gray"), TimerColor::Grey);
    assert_eq!(color_from_name("dark_grey"), TimerColor::DarkGrey);
    assert_eq!(color_from_name("DARK_GRAY"), TimerColor::DarkGrey);
}

#[test]
fn unknown_color_names_fall_back_to_the_terminal_default() {
    assert_eq!(color_from_name("chartreuse"), TimerColor::Reset);
    assert_eq!(color_from_name(""), TimerColor::Reset);
}

#[test]
fn config_resolves_its_scheme() {
    let config = Config::default();
    assert_eq!(config.countdown_color(), TimerColor::Cyan);
    assert_eq!(config.stopwatch_color(), TimerColor::Green);
    assert_eq!(config.times_up_color(), TimerColor::Red);
    assert_eq!(config.ui_text_color(), TimerColor::Grey);
    assert_eq!(config.pomodoro_work_color(), TimerColor::Red);
    assert_eq!(config.pomodoro_break_color(), TimerColor::Green);
    assert_eq!(config.parse_color("White"), TimerColor::White);
}

#[test]
fn default_configuration_values() {
    let config = Config::default();
    assert_eq!(config.colors.countdown, "cyan");
    assert_eq!(config.colors.stopwatch, "green");
    assert_eq!(config.colors.times_up, "red");
    assert_eq!(config.colors.ui_text, "grey");
    assert_eq!(config.colors.pomodoro_work, "red");
    assert_eq!(config.colors.pomodoro_break, "green");
    assert!(!config.blink_separator);
    assert_eq!(config.countdown_refresh_rate, 200);
    assert_eq!(config.stopwatch_refresh_rate, 100);
    assert_eq!(config.pomodoro.work_duration, 25);
    assert_eq!(config.pomodoro.break_duration, 5);
    assert_eq!(config.pomodoro.cycles, 0);
    assert!(!config.pomodoro.sound_enabled);
    assert_eq!(config.pomodoro.refresh_rate, 200);
}

#[test]
fn default_value_functions() {
    assert_eq!(default_countdown_color(), "cyan");
    assert_eq!(default_stopwatch_color(), "green");
    assert_eq!(default_times_up_color(), "red");
    assert_eq!(default_ui_text_color(), "grey");
    assert_eq!(default_pomodoro_work_color(), "red");
    assert_eq!(default_pomodoro_break_color(), "green");
    assert!(!default_blink_separator());
    assert_eq!(default_countdown_refresh_rate(), 200);
    assert_eq!(default_stopwatch_refresh_rate(), 100);
    assert_eq!(default_pomodoro_work_duration(), 25);
    assert_eq!(default_pomodoro_break_duration(), 5);
    assert_eq!(default_pomodoro_cycles(), 0);
    assert!(!default_pomodoro_sound());
    assert_eq!(default_pomodoro_refresh_rate(), 200);
}
