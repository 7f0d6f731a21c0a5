use clockit::timefmt::{
    apply_blink, blink_phase, format_countdown, format_duration, format_pomodoro,
    format_stopwatch,
};

#[test]
fn countdown_under_an_hour_is_m_ss() {
    assert_eq!(format_countdown(0), "0:00");
    assert_eq!(format_countdown(59), "0:59");
    assert_eq!(format_countdown(75), "1:15");
    assert_eq!(format_countdown(3599), "59:59");
}

#[test]
fn countdown_from_an_hour_is_h_mm_ss() {
    assert_eq!(format_countdown(3600), "1:00:00");
    assert_eq!(format_countdown(3661), "1:01:01");
    assert_eq!(format_countdown(10 * 3600 + 2 * 60 + 3), "10:02:03");
}

#[test]
fn reformatting_normalized_overflow() {
    assert_eq!(format_countdown(75), "1:15");
}

#[test]
fn stopwatch_shows_truncated_hundredths() {
    assert_eq!(format_stopwatch(0), "0:00.00");
    assert_eq!(format_stopwatch(61_230), "1:01.23");
    assert_eq!(format_stopwatch(59_999), "0:59.99");
    assert_eq!(format_stopwatch(61_239), "1:01.23");
}

#[test]
fn pomodoro_is_always_m_ss() {
    assert_eq!(format_pomodoro(25 * 60), "25:00");
    assert_eq!(format_pomodoro(3661), "61:01");
    assert_eq!(format_pomodoro(0), "0:00");
}

#[test]
fn blink_off_blanks_every_separator() {
    assert_eq!(apply_blink("1:15", false), "1 15");
    assert_eq!(apply_blink("1:01:01", false), "1 01 01");
}

#[test]
fn blink_on_keeps_the_display() {
    assert_eq!(apply_blink("1:15", true), "1:15");
}

#[test]
fn blink_does_not_touch_digits_or_dot() {
    assert_eq!(apply_blink("1:01.23", false), "1 01.23");
}

#[test]
fn blink_phase_toggles_every_half_second() {
    assert!(blink_phase(0));
    assert!(blink_phase(499));
    assert!(!blink_phase(500));
    assert!(!blink_phase(999));
    assert!(blink_phase(1000));
    assert!(!blink_phase(1500));
}

#[test]
fn blink_phase_depends_on_elapsed_time_alone() {
    // Two sessions sampling the same elapsed instant agree, whatever
    // refresh rate brought them there.
    for &elapsed in &[0u64, 250, 499, 500, 740, 1000, 1250, 123_456] {
        assert_eq!(blink_phase(elapsed), blink_phase(elapsed));
        assert_eq!(blink_phase(elapsed), (elapsed / 500) % 2 == 0);
    }
}

#[test]
fn duration_in_words() {
    assert_eq!(format_duration(45), "45 seconds");
    assert_eq!(format_duration(120), "2 minutes");
    assert_eq!(format_duration(125), "2 minutes 5 seconds");
    assert_eq!(format_duration(3600), "1 hours 0 minutes");
    assert_eq!(format_duration(2 * 3600 + 3 * 60 + 59), "2 hours 3 minutes");
}
