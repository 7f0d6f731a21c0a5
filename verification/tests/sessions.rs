use clockit::session::{
    is_quit_key, CountdownSession, CountdownStep, FlashStep, Key, PomodoroMachine, PomodoroPhase,
    PomodoroStep, SessionState, StopwatchSession, StopwatchStep,
};

fn quit_key() -> Key {
    Key::Char { c: 'q', ctrl: false }
}

fn other_key() -> Key {
    Key::Char { c: 'x', ctrl: false }
}

#[test]
fn quit_keys() {
    assert!(is_quit_key(&Key::Char { c: 'q', ctrl: false }));
    assert!(is_quit_key(&Key::Char { c: 'q', ctrl: true }));
    assert!(is_quit_key(&Key::Char { c: 'c', ctrl: true }));
    assert!(!is_quit_key(&Key::Char { c: 'c', ctrl: false }));
    assert!(!is_quit_key(&Key::Char { c: 'x', ctrl: false }));
    assert!(!is_quit_key(&Key::Other));
}

#[test]
fn countdown_of_two_seconds_completes_at_two_thousand_milliseconds() {
    // Ticking every 200 ms, the session still runs through 1800 ms and
    // enters `Completing` on the first tick at or past 2000 ms.
    let mut session = CountdownSession::new(2, false);
    let mut elapsed = 0;
    while elapsed < 2000 {
        match session.tick(elapsed, false) {
            CountdownStep::Draw { .. } => {}
            _ => panic!("countdown ended before its time"),
        }
        assert_eq!(session.state, SessionState::Running);
        elapsed += 200;
    }
    assert!(matches!(session.tick(2000, false), CountdownStep::Completed));
    assert_eq!(session.state, SessionState::Completing);
}

#[test]
fn countdown_draws_remaining_time() {
    let mut session = CountdownSession::new(75, false);
    match session.tick(0, false) {
        CountdownStep::Draw { display } => assert_eq!(display, "1:15"),
        _ => panic!("expected a draw"),
    }
    match session.tick(1000, false) {
        CountdownStep::Draw { display } => assert_eq!(display, "1:14"),
        _ => panic!("expected a draw"),
    }
}

#[test]
fn countdown_blinks_its_separator_when_enabled() {
    let mut session = CountdownSession::new(75, true);
    match session.tick(0, false) {
        CountdownStep::Draw { display } => assert_eq!(display, "1:15"),
        _ => panic!("expected a draw"),
    }
    match session.tick(600, false) {
        CountdownStep::Draw { display } => assert_eq!(display, "1 14"),
        _ => panic!("expected a draw"),
    }
}

#[test]
fn blink_phase_agrees_across_sessions_at_equal_elapsed_time() {
    // The blink is a function of elapsed time since session start, so two
    // sessions sampled at the same instant agree even if their loops tick
    // at different refresh rates.
    for &elapsed in &[0u64, 300, 600, 999, 1000, 1499, 1500] {
        let mut fast = CountdownSession::new(75, true);
        let mut slow = CountdownSession::new(75, true);
        let a = match fast.tick(elapsed, false) {
            CountdownStep::Draw { display } => display,
            _ => panic!("expected a draw"),
        };
        let b = match slow.tick(elapsed, false) {
            CountdownStep::Draw { display } => display,
            _ => panic!("expected a draw"),
        };
        assert_eq!(a, b);
    }
}

#[test]
fn countdown_quit_cancels() {
    let mut session = CountdownSession::new(60, false);
    assert!(matches!(session.tick(100, true), CountdownStep::Cancelled));
    assert_eq!(session.state, SessionState::Cancelled);
}

#[test]
fn completion_banner_flashes_five_times_then_holds() {
    let mut session = CountdownSession::new(1, false);
    session.tick(1000, false);
    assert_eq!(session.state, SessionState::Completing);
    let mut seen = Vec::new();
    for _ in 0..5 {
        match session.flash_tick(false) {
            FlashStep::Banner { visible } => seen.push(visible),
            _ => panic!("expected a flash frame"),
        }
    }
    assert_eq!(seen, vec![true, false, true, false, true]);
    assert!(matches!(session.flash_tick(false), FlashStep::FinalBanner));
    assert_eq!(session.state, SessionState::AwaitingAcknowledgement);
}

#[test]
fn quit_during_flashing_cancels() {
    let mut session = CountdownSession::new(1, false);
    session.tick(1000, false);
    assert!(matches!(session.flash_tick(true), FlashStep::Cancelled));
    assert_eq!(session.state, SessionState::Cancelled);
}

#[test]
fn acknowledgement_waits_for_the_quit_key() {
    let mut session = CountdownSession::new(1, false);
    session.tick(1000, false);
    for _ in 0..6 {
        session.flash_tick(false);
    }
    assert_eq!(session.state, SessionState::AwaitingAcknowledgement);
    assert!(!session.acknowledge(&other_key()));
    assert_eq!(session.state, SessionState::AwaitingAcknowledgement);
    assert!(session.acknowledge(&quit_key()));
    assert_eq!(session.state, SessionState::Finished);
}

#[test]
fn stopwatch_draws_elapsed_time_until_quit() {
    let mut session = StopwatchSession::new(false);
    match session.tick(61_230, false) {
        StopwatchStep::Draw { display } => assert_eq!(display, "1:01.23"),
        _ => panic!("expected a draw"),
    }
    assert_eq!(session.state, SessionState::Running);
    assert!(matches!(session.tick(61_430, true), StopwatchStep::Stopped));
    assert_eq!(session.state, SessionState::Finished);
}

#[test]
fn pomodoro_runs_its_cycles_to_the_limit() {
    let mut pomodoro = PomodoroMachine::new(25, 5, 2, false);
    assert_eq!(pomodoro.phase, PomodoroPhase::Work);
    match pomodoro.session_tick(0, false) {
        PomodoroStep::Draw { display } => assert_eq!(display, "25:00"),
        _ => panic!("expected a draw"),
    }
    // First cycle: work, prompt, break, prompt.
    assert!(matches!(
        pomodoro.session_tick(25 * 60 * 1000, false),
        PomodoroStep::PhaseComplete
    ));
    assert_eq!(pomodoro.phase, PomodoroPhase::BreakPrompt);
    assert!(pomodoro.prompt_key(&other_key()));
    assert_eq!(pomodoro.phase, PomodoroPhase::Break);
    assert!(matches!(
        pomodoro.session_tick(5 * 60 * 1000, false),
        PomodoroStep::PhaseComplete
    ));
    assert_eq!(pomodoro.completed_cycles, 1);
    assert_eq!(pomodoro.phase, PomodoroPhase::WorkPrompt);
    assert!(pomodoro.prompt_key(&other_key()));
    assert_eq!(pomodoro.phase, PomodoroPhase::Work);
    // Second cycle reaches the limit after its break.
    pomodoro.session_tick(25 * 60 * 1000, false);
    pomodoro.prompt_key(&other_key());
    pomodoro.session_tick(5 * 60 * 1000, false);
    assert_eq!(pomodoro.completed_cycles, 2);
    assert_eq!(pomodoro.phase, PomodoroPhase::AllCyclesDone);
    pomodoro.acknowledge_summary();
    assert_eq!(pomodoro.phase, PomodoroPhase::Finished);
}

#[test]
fn unbounded_pomodoro_always_returns_to_work() {
    let mut pomodoro = PomodoroMachine::new(1, 1, 0, false);
    for _ in 0..3 {
        pomodoro.session_tick(60_000, false);
        assert_eq!(pomodoro.phase, PomodoroPhase::BreakPrompt);
        pomodoro.prompt_key(&other_key());
        pomodoro.session_tick(60_000, false);
        assert_eq!(pomodoro.phase, PomodoroPhase::WorkPrompt);
        pomodoro.prompt_key(&other_key());
        assert_eq!(pomodoro.phase, PomodoroPhase::Work);
    }
    assert_eq!(pomodoro.completed_cycles, 3);
}

#[test]
fn pomodoro_break_display_uses_break_duration() {
    let mut pomodoro = PomodoroMachine::new(25, 5, 0, false);
    pomodoro.session_tick(25 * 60 * 1000, false);
    pomodoro.prompt_key(&other_key());
    match pomodoro.session_tick(60_000, false) {
        PomodoroStep::Draw { display } => assert_eq!(display, "4:00"),
        _ => panic!("expected a draw"),
    }
}

#[test]
fn pomodoro_quit_cancels_anywhere() {
    let mut pomodoro = PomodoroMachine::new(25, 5, 0, false);
    assert!(matches!(
        pomodoro.session_tick(10, true),
        PomodoroStep::Cancelled
    ));
    assert_eq!(pomodoro.phase, PomodoroPhase::Cancelled);

    let mut pomodoro = PomodoroMachine::new(25, 5, 0, false);
    pomodoro.session_tick(25 * 60 * 1000, false);
    assert!(!pomodoro.prompt_key(&quit_key()));
    assert_eq!(pomodoro.phase, PomodoroPhase::Cancelled);
}
