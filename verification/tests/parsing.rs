use clockit::parse::{parse_pomodoro_config, parse_time_string, ParseError};

#[test]
fn parses_bare_seconds() {
    assert_eq!(parse_time_string("61"), Ok(61));
}

#[test]
fn parses_minutes_and_seconds() {
    assert_eq!(parse_time_string("10:30"), Ok(630));
}

#[test]
fn parses_hours_minutes_seconds() {
    assert_eq!(parse_time_string("2:03:04"), Ok(2 * 3600 + 3 * 60 + 4));
}

#[test]
fn seconds_overflow_carries_into_minutes() {
    assert_eq!(parse_time_string("0:75"), Ok(75));
}

#[test]
fn minutes_overflow_carries_into_hours() {
    assert_eq!(parse_time_string("1:75:00"), Ok(3600 + 75 * 60));
}

#[test]
fn empty_input_is_a_shape_error() {
    assert_eq!(parse_time_string(""), Err(ParseError::BadShape));
}

#[test]
fn four_fields_are_a_shape_error() {
    assert_eq!(parse_time_string("1:2:3:4"), Err(ParseError::BadShape));
}

#[test]
fn non_numeric_fields_are_invalid() {
    assert_eq!(parse_time_string("a:b"), Err(ParseError::InvalidField(0)));
}

#[test]
fn first_invalid_field_is_reported() {
    assert_eq!(parse_time_string("5:x"), Err(ParseError::InvalidField(1)));
    assert_eq!(parse_time_string("1:2:z"), Err(ParseError::InvalidField(2)));
}

#[test]
fn empty_fields_are_invalid() {
    assert_eq!(parse_time_string(":"), Err(ParseError::InvalidField(0)));
    assert_eq!(parse_time_string("2:"), Err(ParseError::InvalidField(1)));
}

#[test]
fn surrounding_whitespace_is_tolerated() {
    assert_eq!(parse_time_string(" 5 "), Ok(5));
    assert_eq!(parse_time_string(" 1 : 30 "), Ok(90));
}

#[test]
fn leading_plus_is_tolerated() {
    assert_eq!(parse_time_string("+7"), Ok(7));
}

#[test]
fn a_field_too_large_for_u64_is_invalid() {
    assert_eq!(
        parse_time_string("99999999999999999999"),
        Err(ParseError::InvalidField(0))
    );
}

#[test]
fn round_trip_of_formatted_triples() {
    for &(h, m, s) in &[(0u64, 0u64, 0u64), (0, 0, 59), (1, 2, 3), (12, 34, 56), (99, 59, 59)] {
        let input = format!("{h}:{m:02}:{s:02}");
        assert_eq!(parse_time_string(&input), Ok(h * 3600 + m * 60 + s));
    }
}

#[test]
fn reformatted_countdown_parses_back() {
    for &r in &[0u64, 59, 75, 3599, 3600, 3661, 86_399, 360_000] {
        let display = clockit::timefmt::format_countdown(r);
        assert_eq!(parse_time_string(&display), Ok(r));
    }
}

#[test]
fn pomodoro_full_config() {
    assert_eq!(parse_pomodoro_config("10/2/3"), (10, 2, 3));
}

#[test]
fn pomodoro_work_only_falls_back_for_the_rest() {
    assert_eq!(parse_pomodoro_config("10"), (10, 5, 0));
}

#[test]
fn pomodoro_bad_work_falls_back_to_default_work() {
    assert_eq!(parse_pomodoro_config("x/2/3"), (25, 2, 3));
}

#[test]
fn pomodoro_empty_config_is_all_defaults() {
    assert_eq!(parse_pomodoro_config(""), (25, 5, 0));
}

#[test]
fn pomodoro_zero_work_or_break_falls_back() {
    assert_eq!(parse_pomodoro_config("0/2"), (25, 2, 0));
    assert_eq!(parse_pomodoro_config("5/0/2"), (5, 5, 2));
}

#[test]
fn pomodoro_bad_cycles_fall_back_to_unbounded() {
    assert_eq!(parse_pomodoro_config("1/2/x"), (1, 2, 0));
}

#[test]
fn pomodoro_zero_cycles_accepted() {
    assert_eq!(parse_pomodoro_config("30/10/0"), (30, 10, 0));
}
