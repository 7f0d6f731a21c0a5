//! Session state machines for countdown, stopwatch and Pomodoro runs.
//!
//! Each machine is driven by a loop that owns the clock and the keyboard:
//! once per tick it reports the elapsed milliseconds since the session
//! started and whether a quit key arrived, and the machine answers with
//! the display to draw or the transition taken. Quit during a running
//! session cancels it; a countdown that reaches its end flashes a banner,
//! waits for acknowledgement and finishes; a Pomodoro run alternates work
//! and break countdowns with a prompt between phases and an optional
//! cycle limit.

use crate::timefmt::{
    spec_apply_blink, spec_blink_on, spec_format_countdown, spec_format_pomodoro,
    spec_format_stopwatch, format_countdown, format_pomodoro, format_stopwatch, apply_blink,
    blink_phase,
};
use vstd::prelude::*;

verus! {

/// A keyboard event as the session loop reports it: a character with its
/// control-modifier flag, or any other key.
#[derive(Clone, Copy, Debug, PartialEq, Eq, Structural)]
pub enum Key {
    /// A character key; `ctrl` is set when Control was held.
    Char { c: char, ctrl: bool },
    /// Any non-character key.
    Other,
}

/// Whether a key asks to quit: the character `q`, or Control+C.
pub open spec fn spec_is_quit_key(k: Key) -> bool {
    match k {
        Key::Char { c, ctrl } => c == 'q' || (c == 'c' && ctrl),
        Key::Other => false,
    }
}

/// Whether a key asks to quit: the character `q`, or Control+C.
pub fn is_quit_key(k: &Key) -> (r: bool)
    ensures
        r == spec_is_quit_key(*k),
{
    match k {
        Key::Char { c, ctrl } => *c == 'q' || (*c == 'c' && *ctrl),
        Key::Other => false,
    }
}

/// The states a timed session passes through.
#[derive(Clone, Copy, Debug, PartialEq, Eq, Structural)]
pub enum SessionState {
    /// The timer is counting.
    Running,
    /// A countdown reached its end and the completion banner is flashing.
    Completing,
    /// The completion banner holds steady, waiting for the quit key.
    AwaitingAcknowledgement,
    /// A quit key ended the session early.
    Cancelled,
    /// The session ended normally.
    Finished,
}

/// Flash half-periods of the completion banner: visible on even ones.
pub const FLASH_REPETITIONS: u8 = 5;

/// Whole seconds left of a countdown at `elapsed_ms` milliseconds in,
/// rounded down.
pub open spec fn spec_remaining_seconds(total_seconds: int, elapsed_ms: int) -> int {
    (total_seconds * 1000 - elapsed_ms) / 1000
}

/// The countdown display at `elapsed_ms` in: the remaining time, with the
/// separator blanked in the off phase when blinking is enabled.
pub open spec fn spec_countdown_display(
    total_seconds: int,
    elapsed_ms: int,
    blink_separator: bool,
) -> Seq<char> {
    spec_apply_blink(
        spec_format_countdown(spec_remaining_seconds(total_seconds, elapsed_ms) as nat),
        !blink_separator || spec_blink_on(elapsed_ms),
    )
}

/// The stopwatch display at `elapsed_ms`: the elapsed time with
/// hundredths, with the separator blanked in the off phase when blinking
/// is enabled.
pub open spec fn spec_stopwatch_display(elapsed_ms: int, blink_separator: bool) -> Seq<char> {
    spec_apply_blink(
        spec_format_stopwatch(elapsed_ms as nat),
        !blink_separator || spec_blink_on(elapsed_ms),
    )
}

/// The Pomodoro sub-session display at `elapsed_ms` into a phase of
/// `duration_seconds`: always `M:SS`, with the separator blanked in the
/// off phase when blinking is enabled.
pub open spec fn spec_pomodoro_display(
    duration_seconds: int,
    elapsed_ms: int,
    blink_separator: bool,
) -> Seq<char> {
    spec_apply_blink(
        spec_format_pomodoro(spec_remaining_seconds(duration_seconds, elapsed_ms) as nat),
        !blink_separator || spec_blink_on(elapsed_ms),
    )
}

/// A countdown ticking every `refresh_ms` milliseconds completes in a
/// bounded window: the first tick at or past the end comes at least
/// `total_seconds` seconds in, and less than one refresh interval later.
pub proof fn lemma_countdown_completion_window(
    total_seconds: int,
    refresh_ms: int,
    n: int,
)
    requires
        total_seconds > 0,
        refresh_ms > 0,
        n >= 1,
        (n - 1) * refresh_ms < total_seconds * 1000,
        n * refresh_ms >= total_seconds * 1000,
    ensures
        total_seconds * 1000 <= n * refresh_ms < total_seconds * 1000 + refresh_ms,
{
    assert(n * refresh_ms == (n - 1) * refresh_ms + refresh_ms) by (nonlinear_arith);
}

/// What a countdown tick asks the loop to do.
pub enum CountdownStep {
    /// Keep running and draw this display string.
    Draw { display: String },
    /// The countdown reached its end; begin the completion flashes.
    Completed,
    /// A quit key cancelled the session.
    Cancelled,
}

/// What a completion-flash tick asks the loop to do.
pub enum FlashStep {
    /// Draw one flash frame: the banner when `visible`, a blank screen
    /// otherwise, then wait one flash half-period.
    Banner { visible: bool },
    /// Flashing is over; draw the banner steady and await the quit key.
    FinalBanner,
    /// A quit key cancelled the session.
    Cancelled,
}

/// One countdown session: a duration fixed at start, ticked by the loop.
pub struct CountdownSession {
    /// Seconds the countdown runs for.
    pub total_seconds: u64,
    /// Whether the separator blinks.
    pub blink_separator: bool,
    /// Where the session stands.
    pub state: SessionState,
    /// Completed flash half-periods while `Completing`.
    pub flashes_done: u8,
}

impl CountdownSession {
    /// A session in sound shape: a positive duration whose millisecond
    /// count is representable, and a flash counter within range.
    pub open spec fn wf(&self) -> bool {
        &&& self.total_seconds >= 1
        &&& self.total_seconds * 1000 <= u64::MAX
        &&& self.flashes_done <= FLASH_REPETITIONS
    }

    /// Starts a countdown of `total_seconds`; a zero duration must be
    /// rejected before a session is made.
    pub fn new(total_seconds: u64, blink_separator: bool) -> (s: Self)
        requires
            total_seconds >= 1,
            total_seconds * 1000 <= u64::MAX,
        ensures
            s.wf(),
            s.total_seconds == total_seconds,
            s.blink_separator == blink_separator,
            s.state == SessionState::Running,
            s.flashes_done == 0,
    {
        CountdownSession { total_seconds, blink_separator, state: SessionState::Running, flashes_done: 0 }
    }

    /// One running tick at `elapsed_ms` since start. A quit cancels; the
    /// end of the countdown, and nothing else, moves to `Completing`;
    /// otherwise the remaining time is drawn.
    pub fn tick(&mut self, elapsed_ms: u64, quit: bool) -> (step: CountdownStep)
        requires
            old(self).wf(),
            old(self).state == SessionState::Running,
        ensures
            final(self).wf(),
            final(self).total_seconds == old(self).total_seconds,
            final(self).blink_separator == old(self).blink_separator,
            quit ==> final(self).state == SessionState::Cancelled && (step matches
                CountdownStep::Cancelled),
            !quit && elapsed_ms >= old(self).total_seconds * 1000 ==> final(self).state
                == SessionState::Completing && final(self).flashes_done == 0 && (step matches
                CountdownStep::Completed),
            !quit && elapsed_ms < old(self).total_seconds * 1000 ==> final(self).state
                == SessionState::Running && final(self).flashes_done == old(self).flashes_done && (
            step matches CountdownStep::Draw { display } && display@ == spec_countdown_display(
                old(self).total_seconds as int,
                elapsed_ms as int,
                old(self).blink_separator,
            )),
    {
        if quit {
            self.state = SessionState::Cancelled;
            return CountdownStep::Cancelled;
        }
        let end_ms = self.total_seconds * 1000;
        if elapsed_ms >= end_ms {
            self.state = SessionState::Completing;
            self.flashes_done = 0;
            return CountdownStep::Completed;
        }
        let remaining_secs = (end_ms - elapsed_ms) / 1000;
        let plain = format_countdown(remaining_secs);
        let blink_on = if self.blink_separator {
            blink_phase(elapsed_ms)
        } else {
            true
        };
        let display = apply_blink(plain.as_str(), blink_on);
        CountdownStep::Draw { display }
    }

    /// One completion-flash tick. A quit cancels; otherwise the banner
    /// flashes for `FLASH_REPETITIONS` half-periods, visible on the even
    /// ones, and then holds steady awaiting acknowledgement.
    pub fn flash_tick(&mut self, quit: bool) -> (step: FlashStep)
        requires
            old(self).wf(),
            old(self).state == SessionState::Completing,
        ensures
            final(self).wf(),
            final(self).total_seconds == old(self).total_seconds,
            final(self).blink_separator == old(self).blink_separator,
            quit ==> final(self).state == SessionState::Cancelled && (step matches
                FlashStep::Cancelled),
            !quit && old(self).flashes_done < FLASH_REPETITIONS ==> final(self).state
                == SessionState::Completing && final(self).flashes_done == old(self).flashes_done
                + 1 && (step matches FlashStep::Banner { visible } && visible == (old(self).flashes_done % 2 == 0)),
            !quit && old(self).flashes_done == FLASH_REPETITIONS ==> final(self).state
                == SessionState::AwaitingAcknowledgement && (step matches FlashStep::FinalBanner),
    {
        if quit {
            self.state = SessionState::Cancelled;
            return FlashStep::Cancelled;
        }
        if self.flashes_done < FLASH_REPETITIONS {
            let visible = self.flashes_done % 2 == 0;
            self.flashes_done = self.flashes_done + 1;
            FlashStep::Banner { visible }
        } else {
            self.state = SessionState::AwaitingAcknowledgement;
            FlashStep::FinalBanner
        }
    }

    /// A key while the banner holds steady: the quit key finishes the
    /// session, any other key leaves it waiting.
    pub fn acknowledge(&mut self, key: &Key) -> (done: bool)
        requires
            old(self).wf(),
            old(self).state == SessionState::AwaitingAcknowledgement,
        ensures
            final(self).wf(),
            final(self).total_seconds == old(self).total_seconds,
            final(self).blink_separator == old(self).blink_separator,
            spec_is_quit_key(*key) ==> final(self).state == SessionState::Finished && done,
            !spec_is_quit_key(*key) ==> *final(self) == *old(self) && !done,
    {
        if is_quit_key(key) {
            self.state = SessionState::Finished;
            true
        } else {
            false
        }
    }
}

/// What a stopwatch tick asks the loop to do.
pub enum StopwatchStep {
    /// Keep running and draw this display string.
    Draw { display: String },
    /// A quit key stopped the stopwatch.
    Stopped,
}

/// One stopwatch session: runs until a quit key stops it.
pub struct StopwatchSession {
    /// Whether the separator blinks.
    pub blink_separator: bool,
    /// Where the session stands.
    pub state: SessionState,
}

impl StopwatchSession {
    /// Starts a stopwatch.
    pub fn new(blink_separator: bool) -> (s: Self)
        ensures
            s.blink_separator == blink_separator,
            s.state == SessionState::Running,
    {
        StopwatchSession { blink_separator, state: SessionState::Running }
    }

    /// One running tick at `elapsed_ms` since start. The quit key is the
    /// only exit: it finishes the session; otherwise the elapsed time is
    /// drawn.
    pub fn tick(&mut self, elapsed_ms: u64, quit: bool) -> (step: StopwatchStep)
        requires
            old(self).state == SessionState::Running,
        ensures
            final(self).blink_separator == old(self).blink_separator,
            quit ==> final(self).state == SessionState::Finished && (step matches
                StopwatchStep::Stopped),
            !quit ==> *final(self) == *old(self) && (step matches StopwatchStep::Draw { display }
                && display@ == spec_stopwatch_display(
                elapsed_ms as int,
                old(self).blink_separator,
            )),
    {
        if quit {
            self.state = SessionState::Finished;
            return StopwatchStep::Stopped;
        }
        let plain = format_stopwatch(elapsed_ms);
        let blink_on = if self.blink_separator {
            blink_phase(elapsed_ms)
        } else {
            true
        };
        let display = apply_blink(plain.as_str(), blink_on);
        StopwatchStep::Draw { display }
    }
}

/// The phases of a Pomodoro run.
#[derive(Clone, Copy, Debug, PartialEq, Eq, Structural)]
pub enum PomodoroPhase {
    /// A work countdown is running.
    Work,
    /// The break-time prompt awaits a key.
    BreakPrompt,
    /// A break countdown is running.
    Break,
    /// The back-to-work prompt awaits a key.
    WorkPrompt,
    /// The cycle limit is reached; the summary banner awaits a key.
    AllCyclesDone,
    /// The run ended after its summary was acknowledged.
    Finished,
    /// A quit key ended the run early.
    Cancelled,
}

/// What a Pomodoro sub-session tick asks the loop to do.
pub enum PomodoroStep {
    /// Keep the current phase running and draw this display string.
    Draw { display: String },
    /// The current work or break countdown reached its end.
    PhaseComplete,
    /// A quit key cancelled the run.
    Cancelled,
}

/// One Pomodoro run: alternating work and break countdowns with a prompt
/// between phases, counting completed work-and-break cycles against an
/// optional limit.
pub struct PomodoroMachine {
    /// Seconds of one work phase.
    pub work_seconds: u64,
    /// Seconds of one break phase.
    pub break_seconds: u64,
    /// Completed cycles after which the run ends; 0 means unbounded.
    pub cycle_limit: u64,
    /// Work-and-break pairs completed so far.
    pub completed_cycles: u64,
    /// Whether the separator blinks.
    pub blink_separator: bool,
    /// Where the run stands.
    pub phase: PomodoroPhase,
}

impl PomodoroMachine {
    /// A machine in sound shape: positive phase durations whose
    /// millisecond counts are representable, and a cycle count within the
    /// limit when one is set.
    pub open spec fn wf(&self) -> bool {
        &&& self.work_seconds >= 1
        &&& self.break_seconds >= 1
        &&& self.work_seconds * 1000 <= u64::MAX
        &&& self.break_seconds * 1000 <= u64::MAX
        &&& (self.cycle_limit > 0 ==> self.completed_cycles <= self.cycle_limit)
    }

    /// Starts a Pomodoro run of `work_minutes`-minute work phases and
    /// `break_minutes`-minute breaks, ending after `cycles` completed
    /// cycles (0 meaning unbounded), in its first work phase.
    pub fn new(work_minutes: u64, break_minutes: u64, cycles: u64, blink_separator: bool) -> (m:
        Self)
        requires
            work_minutes >= 1,
            break_minutes >= 1,
            work_minutes * 60000 <= u64::MAX,
            break_minutes * 60000 <= u64::MAX,
        ensures
            m.wf(),
            m.work_seconds == work_minutes * 60,
            m.break_seconds == break_minutes * 60,
            m.cycle_limit == cycles,
            m.completed_cycles == 0,
            m.blink_separator == blink_separator,
            m.phase == PomodoroPhase::Work,
    {
        PomodoroMachine {
            work_seconds: work_minutes * 60,
            break_seconds: break_minutes * 60,
            cycle_limit: cycles,
            completed_cycles: 0,
            blink_separator,
            phase: PomodoroPhase::Work,
        }
    }

    /// The duration of the phase that is running.
    pub open spec fn spec_phase_seconds(&self) -> int {
        if self.phase == PomodoroPhase::Work {
            self.work_seconds as int
        } else {
            self.break_seconds as int
        }
    }

    /// One tick of the running work or break countdown at `elapsed_ms`
    /// into the phase. A quit cancels the whole run. A completed work
    /// phase moves to the break-time prompt. A completed break counts one
    /// cycle, then moves to the back-to-work prompt, or ends the run when
    /// the counted cycles reach a set limit. Otherwise the remaining time
    /// is drawn.
    pub fn session_tick(&mut self, elapsed_ms: u64, quit: bool) -> (step: PomodoroStep)
        requires
            old(self).wf(),
            old(self).phase == PomodoroPhase::Work || old(self).phase == PomodoroPhase::Break,
            old(self).completed_cycles < u64::MAX,
            old(self).cycle_limit > 0 ==> old(self).completed_cycles < old(self).cycle_limit,
        ensures
            final(self).wf(),
            final(self).work_seconds == old(self).work_seconds,
            final(self).break_seconds == old(self).break_seconds,
            final(self).cycle_limit == old(self).cycle_limit,
            final(self).blink_separator == old(self).blink_separator,
            quit ==> final(self).phase == PomodoroPhase::Cancelled && (step matches
                PomodoroStep::Cancelled),
            !quit && elapsed_ms < old(self).spec_phase_seconds() * 1000 ==> *final(self) == *old(self) && (step matches PomodoroStep::Draw { display } && display@ == spec_pomodoro_display(
                old(self).spec_phase_seconds(),
                elapsed_ms as int,
                old(self).blink_separator,
            )),
            !quit && elapsed_ms >= old(self).spec_phase_seconds() * 1000 ==> (step matches
                PomodoroStep::PhaseComplete) && final(self).completed_cycles == (if old(self).phase == PomodoroPhase::Work {
                old(self).completed_cycles as int
            } else {
                old(self).completed_cycles + 1
            }),
            !quit && elapsed_ms >= old(self).spec_phase_seconds() * 1000 && old(self).phase
                == PomodoroPhase::Work ==> final(self).phase == PomodoroPhase::BreakPrompt,
            !quit && elapsed_ms >= old(self).spec_phase_seconds() * 1000 && old(self).phase
                == PomodoroPhase::Break ==> final(self).phase == (if old(self).cycle_limit > 0
                && old(self).completed_cycles + 1 >= old(self).cycle_limit {
                PomodoroPhase::AllCyclesDone
            } else {
                PomodoroPhase::WorkPrompt
            }),
    {
        if quit {
            self.phase = PomodoroPhase::Cancelled;
            return PomodoroStep::Cancelled;
        }
        let duration = if matches!(self.phase, PomodoroPhase::Work) {
            self.work_seconds
        } else {
            self.break_seconds
        };
        let end_ms = duration * 1000;
        if elapsed_ms >= end_ms {
            if matches!(self.phase, PomodoroPhase::Work) {
                self.phase = PomodoroPhase::BreakPrompt;
            } else {
                self.completed_cycles = self.completed_cycles + 1;
                if self.cycle_limit > 0 && self.completed_cycles >= self.cycle_limit {
                    self.phase = PomodoroPhase::AllCyclesDone;
                } else {
                    self.phase = PomodoroPhase::WorkPrompt;
                }
            }
            return PomodoroStep::PhaseComplete;
        }
        let remaining_secs = (end_ms - elapsed_ms) / 1000;
        let plain = format_pomodoro(remaining_secs);
        let blink_on = if self.blink_separator {
            blink_phase(elapsed_ms)
        } else {
            true
        };
        let display = apply_blink(plain.as_str(), blink_on);
        PomodoroStep::Draw { display }
    }

    /// The key answering a between-phases prompt: the quit key cancels
    /// the whole run, any other key advances to the announced phase.
    pub fn prompt_key(&mut self, key: &Key) -> (cont: bool)
        requires
            old(self).wf(),
            old(self).phase == PomodoroPhase::BreakPrompt || old(self).phase
                == PomodoroPhase::WorkPrompt,
        ensures
            final(self).wf(),
            final(self).work_seconds == old(self).work_seconds,
            final(self).break_seconds == old(self).break_seconds,
            final(self).cycle_limit == old(self).cycle_limit,
            final(self).completed_cycles == old(self).completed_cycles,
            final(self).blink_separator == old(self).blink_separator,
            spec_is_quit_key(*key) ==> final(self).phase == PomodoroPhase::Cancelled && !cont,
            !spec_is_quit_key(*key) && old(self).phase == PomodoroPhase::BreakPrompt ==> final(self).phase == PomodoroPhase::Break && cont,
            !spec_is_quit_key(*key) && old(self).phase == PomodoroPhase::WorkPrompt ==> final(self).phase == PomodoroPhase::Work && cont,
    {
        if is_quit_key(key) {
            self.phase = PomodoroPhase::Cancelled;
            false
        } else {
            if matches!(self.phase, PomodoroPhase::BreakPrompt) {
                self.phase = PomodoroPhase::Break;
            } else {
                self.phase = PomodoroPhase::Work;
            }
            true
        }
    }

    /// Any key acknowledging the all-cycles-completed summary ends the
    /// run.
    pub fn acknowledge_summary(&mut self)
        requires
            old(self).wf(),
            old(self).phase == PomodoroPhase::AllCyclesDone,
        ensures
            final(self).wf(),
            final(self).work_seconds == old(self).work_seconds,
            final(self).break_seconds == old(self).break_seconds,
            final(self).cycle_limit == old(self).cycle_limit,
            final(self).completed_cycles == old(self).completed_cycles,
            final(self).blink_separator == old(self).blink_separator,
            final(self).phase == PomodoroPhase::Finished,
    {
        self.phase = PomodoroPhase::Finished;
    }
}

} // verus!
