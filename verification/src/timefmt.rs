//! Formatting of durations as display strings, and the separator blink.
//!
//! A countdown shows `M:SS` below one hour and `H:MM:SS` from one hour on;
//! a stopwatch shows `M:SS.CC` with truncated hundredths; a Pomodoro
//! session always shows `M:SS`. When the separator blink is on, every `:`
//! in the display string is swapped for a space during the second half of
//! each elapsed second.

use vstd::prelude::*;

verus! {

/// The decimal digit character for `d` (meaningful for `0 <= d <= 9`).
pub open spec fn digit_char(d: int) -> char {
    ((48 + d) as u8) as char
}

/// The decimal representation of `n`, most significant digit first,
/// without padding.
pub open spec fn dec_chars(n: nat) -> Seq<char>
    decreases n,
{
    if n < 10 {
        seq![digit_char(n as int)]
    } else {
        dec_chars(n / 10).push(digit_char((n % 10) as int))
    }
}

/// The decimal representation of `n` padded with `0` to at least two digits.
pub open spec fn two_dec_chars(n: nat) -> Seq<char> {
    if n < 10 {
        seq!['0', digit_char(n as int)]
    } else {
        dec_chars(n)
    }
}

/// Countdown display: `M:SS` while under an hour, `H:MM:SS` from then on.
pub open spec fn spec_format_countdown(remaining_seconds: nat) -> Seq<char> {
    let minutes = remaining_seconds / 60;
    let seconds = remaining_seconds % 60;
    if minutes >= 60 {
        dec_chars(minutes / 60) + seq![':'] + two_dec_chars(minutes % 60) + seq![':']
            + two_dec_chars(seconds)
    } else {
        dec_chars(minutes) + seq![':'] + two_dec_chars(seconds)
    }
}

/// Stopwatch display: `M:SS.CC`, hundredths truncated.
pub open spec fn spec_format_stopwatch(elapsed_ms: nat) -> Seq<char> {
    let seconds = elapsed_ms / 1000;
    let centis = (elapsed_ms % 1000) / 10;
    dec_chars(seconds / 60) + seq![':'] + two_dec_chars(seconds % 60) + seq!['.']
        + two_dec_chars(centis)
}

/// Pomodoro display: always `M:SS`, whatever the magnitude.
pub open spec fn spec_format_pomodoro(remaining_seconds: nat) -> Seq<char> {
    dec_chars(remaining_seconds / 60) + seq![':'] + two_dec_chars(remaining_seconds % 60)
}

/// The display string with the separator blanked out when the blink is off.
pub open spec fn spec_apply_blink(s: Seq<char>, blink_on: bool) -> Seq<char> {
    if blink_on {
        s
    } else {
        s.map_values(|c: char| if c == ':' { ' ' } else { c })
    }
}

/// Blink phase for elapsed session time: on during the first half of each
/// second, off during the second half.
pub open spec fn spec_blink_on(elapsed_ms: int) -> bool {
    (elapsed_ms / 500) % 2 == 0
}

/// Relies on `String::from_utf8`: a byte vector that is all ASCII decodes
/// to the string whose characters are exactly those bytes.
#[verifier::external_body]
fn ascii_bytes_to_string(bytes: Vec<u8>) -> (r: String)
    requires
        forall|i: int| 0 <= i < bytes@.len() ==> bytes@[i] < 128,
    ensures
        r@.len() == bytes@.len(),
        forall|i: int| 0 <= i < bytes@.len() ==> r@[i] == bytes@[i] as char,
{
    String::from_utf8(bytes).unwrap_or_default()
}

/// Relies on `str::replace` with a one-character pattern and a
/// one-character replacement: each `:` becomes a space, every other
/// character is kept in place.
#[verifier::external_body]
fn replace_colon_with_space(s: &str) -> (r: String)
    ensures
        r@ == s@.map_values(|c: char| if c == ':' { ' ' } else { c }),
{
    s.replace(':', " ")
}

/// Appends the decimal digits of `n` to `buf` as ASCII bytes.
fn push_decimal(buf: &mut Vec<u8>, n: u64)
    ensures
        final(buf)@.len() == old(buf)@.len() + dec_chars(n as nat).len(),
        forall|i: int| 0 <= i < old(buf)@.len() ==> final(buf)@[i] == old(buf)@[i],
        forall|i: int|
            old(buf)@.len() <= i < final(buf)@.len() ==> {
                &&& 48 <= final(buf)@[i] < 58
                &&& final(buf)@[i] as char == dec_chars(n as nat)[i - old(buf)@.len()]
            },
    decreases n,
{
    if n >= 10 {
        push_decimal(buf, n / 10);
    }
    buf.push(48 + (n % 10) as u8);
}

/// Appends the decimal digits of `n`, zero-padded to at least two digits.
fn push_two_decimal(buf: &mut Vec<u8>, n: u64)
    ensures
        final(buf)@.len() == old(buf)@.len() + two_dec_chars(n as nat).len(),
        forall|i: int| 0 <= i < old(buf)@.len() ==> final(buf)@[i] == old(buf)@[i],
        forall|i: int|
            old(buf)@.len() <= i < final(buf)@.len() ==> {
                &&& 48 <= final(buf)@[i] < 58
                &&& final(buf)@[i] as char == two_dec_chars(n as nat)[i - old(buf)@.len()]
            },
{
    if n < 10 {
        buf.push(48);
    }
    push_decimal(buf, n);
}

/// Countdown display string for the remaining whole seconds: `M:SS` while
/// the total is under an hour, `H:MM:SS` from one hour on.
pub fn format_countdown(remaining_seconds: u64) -> (r: String)
    ensures
        r@ == spec_format_countdown(remaining_seconds as nat),
{
    let minutes = remaining_seconds / 60;
    let seconds = remaining_seconds % 60;
    let mut buf: Vec<u8> = Vec::new();
    if minutes >= 60 {
        push_decimal(&mut buf, minutes / 60);
        buf.push(58);
        push_two_decimal(&mut buf, minutes % 60);
        buf.push(58);
        push_two_decimal(&mut buf, seconds);
    } else {
        push_decimal(&mut buf, minutes);
        buf.push(58);
        push_two_decimal(&mut buf, seconds);
    }
    let r = ascii_bytes_to_string(buf);
    proof {
        assert(r@ =~= spec_format_countdown(remaining_seconds as nat));
    }
    r
}

/// Stopwatch display string for the elapsed milliseconds: `M:SS.CC` with
/// hundredths truncated, not rounded.
pub fn format_stopwatch(elapsed_ms: u64) -> (r: String)
    ensures
        r@ == spec_format_stopwatch(elapsed_ms as nat),
{
    let seconds = elapsed_ms / 1000;
    let centis = (elapsed_ms % 1000) / 10;
    let mut buf: Vec<u8> = Vec::new();
    push_decimal(&mut buf, seconds / 60);
    buf.push(58);
    push_two_decimal(&mut buf, seconds % 60);
    buf.push(46);
    push_two_decimal(&mut buf, centis);
    let r = ascii_bytes_to_string(buf);
    proof {
        assert(r@ =~= spec_format_stopwatch(elapsed_ms as nat));
    }
    r
}

/// Pomodoro display string for the remaining whole seconds: always `M:SS`.
pub fn format_pomodoro(remaining_seconds: u64) -> (r: String)
    ensures
        r@ == spec_format_pomodoro(remaining_seconds as nat),
{
    let minutes = remaining_seconds / 60;
    let seconds = remaining_seconds % 60;
    let mut buf: Vec<u8> = Vec::new();
    push_decimal(&mut buf, minutes);
    buf.push(58);
    push_two_decimal(&mut buf, seconds);
    let r = ascii_bytes_to_string(buf);
    proof {
        assert(r@ =~= spec_format_pomodoro(remaining_seconds as nat));
    }
    r
}

/// A duration in words: seconds under a minute, minutes with leftover
/// seconds under an hour, hours and minutes from then on.
pub open spec fn spec_format_duration(seconds: nat) -> Seq<char> {
    if seconds < 60 {
        dec_chars(seconds) + " seconds"@
    } else if seconds < 3600 {
        if seconds % 60 == 0 {
            dec_chars(seconds / 60) + " minutes"@
        } else {
            dec_chars(seconds / 60) + " minutes "@ + dec_chars(seconds % 60) + " seconds"@
        }
    } else {
        dec_chars(seconds / 3600) + " hours "@ + dec_chars((seconds % 3600) / 60) + " minutes"@
    }
}

/// The decimal representation of `n` as a string.
fn dec_string(n: u64) -> (r: String)
    ensures
        r@ == dec_chars(n as nat),
{
    let mut buf: Vec<u8> = Vec::new();
    push_decimal(&mut buf, n);
    let r = ascii_bytes_to_string(buf);
    proof {
        assert(r@ =~= dec_chars(n as nat));
    }
    r
}

/// A duration in human-readable words: `N seconds` under a minute,
/// `N minutes` or `N minutes M seconds` under an hour, `N hours M
/// minutes` from then on.
pub fn format_duration(seconds: u64) -> (r: String)
    ensures
        r@ == spec_format_duration(seconds as nat),
{
    if seconds < 60 {
        let mut r = dec_string(seconds);
        r.append(" seconds");
        r
    } else if seconds < 3600 {
        let minutes = seconds / 60;
        let secs = seconds % 60;
        if secs == 0 {
            let mut r = dec_string(minutes);
            r.append(" minutes");
            r
        } else {
            let mut r = dec_string(minutes);
            r.append(" minutes ");
            let tail = dec_string(secs);
            r.append(tail.as_str());
            r.append(" seconds");
            r
        }
    } else {
        let hours = seconds / 3600;
        let minutes = (seconds % 3600) / 60;
        let mut r = dec_string(hours);
        r.append(" hours ");
        let tail = dec_string(minutes);
        r.append(tail.as_str());
        r.append(" minutes");
        r
    }
}

/// The display string with every `:` replaced by a space when the blink is
/// off; untouched when it is on.
pub fn apply_blink(display: &str, blink_on: bool) -> (r: String)
    ensures
        r@ == spec_apply_blink(display@, blink_on),
{
    if blink_on {
        display.to_owned()
    } else {
        replace_colon_with_space(display)
    }
}

/// Blink phase at `elapsed_ms` milliseconds since session start: the phase
/// depends on elapsed time alone, so sessions ticking at different rates
/// agree on it.
pub fn blink_phase(elapsed_ms: u64) -> (on: bool)
    ensures
        on == spec_blink_on(elapsed_ms as int),
{
    (elapsed_ms / 500) % 2 == 0
}

/// The blink phase toggles at every 500 ms boundary of elapsed time.
pub proof fn lemma_blink_toggles(elapsed_ms: int)
    requires
        elapsed_ms >= 0,
    ensures
        spec_blink_on(elapsed_ms + 500) != spec_blink_on(elapsed_ms),
{
    assert((elapsed_ms + 500) / 500 == elapsed_ms / 500 + 1) by (nonlinear_arith);
}

/// The blink phase is a function of elapsed time alone: within one 500 ms
/// window it is constant, whatever tick cadence sampled it.
pub proof fn lemma_blink_deterministic(e1: int, e2: int)
    requires
        e1 / 500 == e2 / 500,
    ensures
        spec_blink_on(e1) == spec_blink_on(e2),
{
}

} // verus!
