//! Colors for the timer display, resolved from configured color names.
//!
//! A color name is looked up case-insensitively in a fixed table; an
//! unknown name falls back to the terminal's default color.

use crate::parse::str_chars;
use vstd::prelude::*;

verus! {

/// A display color of the timer; `Reset` is the terminal's default.
#[derive(Clone, Copy, Debug, PartialEq, Eq, Structural)]
pub enum TimerColor {
    Black,
    Blue,
    Cyan,
    DarkBlue,
    DarkCyan,
    DarkGreen,
    DarkGrey,
    DarkMagenta,
    DarkRed,
    DarkYellow,
    Green,
    Grey,
    Magenta,
    Red,
    White,
    Yellow,
    /// The terminal's default color, used for unknown names.
    Reset,
}

/// An ASCII capital letter lowered; any other character unchanged.
pub open spec fn ascii_lower_char(c: char) -> char {
    if 'A' <= c && c <= 'Z' {
        (((c as u32) + 32) as u8) as char
    } else {
        c
    }
}

/// A name lowered character by character, ASCII letters only.
pub open spec fn ascii_lower(s: Seq<char>) -> Seq<char> {
    s.map_values(|c: char| ascii_lower_char(c))
}

/// The color a lowered name resolves to; unknown names resolve to
/// `Reset`.
pub open spec fn spec_color_for(lower: Seq<char>) -> TimerColor {
    if lower == "black"@ {
        TimerColor::Black
    } else if lower == "blue"@ {
        TimerColor::Blue
    } else if lower == "cyan"@ {
        TimerColor::Cyan
    } else if lower == "dark_blue"@ {
        TimerColor::DarkBlue
    } else if lower == "dark_cyan"@ {
        TimerColor::DarkCyan
    } else if lower == "dark_green"@ {
        TimerColor::DarkGreen
    } else if lower == "dark_grey"@ || lower == "dark_gray"@ {
        TimerColor::DarkGrey
    } else if lower == "dark_magenta"@ {
        TimerColor::DarkMagenta
    } else if lower == "dark_red"@ {
        TimerColor::DarkRed
    } else if lower == "dark_yellow"@ {
        TimerColor::DarkYellow
    } else if lower == "green"@ {
        TimerColor::Green
    } else if lower == "grey"@ || lower == "gray"@ {
        TimerColor::Grey
    } else if lower == "magenta"@ {
        TimerColor::Magenta
    } else if lower == "red"@ {
        TimerColor::Red
    } else if lower == "white"@ {
        TimerColor::White
    } else if lower == "yellow"@ {
        TimerColor::Yellow
    } else {
        TimerColor::Reset
    }
}

/// The color a configured name resolves to, case-insensitively.
pub open spec fn spec_parse_color(name: Seq<char>) -> TimerColor {
    spec_color_for(ascii_lower(name))
}

/// Content equality between a character vector and a string.
fn chars_eq_str(v: &Vec<char>, s: &str) -> (r: bool)
    ensures
        r == (v@ == s@),
{
    let n = s.unicode_len();
    if v.len() != n {
        return false;
    }
    let mut i: usize = 0;
    while i < n
        invariant
            0 <= i <= n,
            n == s@.len(),
            v@.len() == n,
            forall|k: int| 0 <= k < i ==> v@[k] == s@[k],
        decreases n - i,
    {
        let c = s.get_char(i);
        if v[i] != c {
            return false;
        }
        i = i + 1;
    }
    proof {
        assert(v@ =~= s@);
    }
    true
}

/// Resolves a color name: the fixed table, case-insensitive on ASCII
/// letters, with `Reset` for any unknown name.
pub fn color_from_name(name: &str) -> (color: TimerColor)
    ensures
        color == spec_parse_color(name@),
{
    let chars = str_chars(name);
    let mut lower: Vec<char> = Vec::new();
    let mut i: usize = 0;
    while i < chars.len()
        invariant
            0 <= i <= chars@.len(),
            chars@ == name@,
            lower@.len() == i,
            forall|k: int| 0 <= k < i ==> lower@[k] == ascii_lower_char(chars@[k]),
        decreases chars@.len() - i,
    {
        let c = chars[i];
        if c >= 'A' && c <= 'Z' {
            let u = c as u32;
            lower.push(((u + 32) as u8) as char);
        } else {
            lower.push(c);
        }
        i = i + 1;
    }
    proof {
        assert(lower@ =~= ascii_lower(name@));
    }
    if chars_eq_str(&lower, "black") {
        TimerColor::Black
    } else if chars_eq_str(&lower, "blue") {
        TimerColor::Blue
    } else if chars_eq_str(&lower, "cyan") {
        TimerColor::Cyan
    } else if chars_eq_str(&lower, "dark_blue") {
        TimerColor::DarkBlue
    } else if chars_eq_str(&lower, "dark_cyan") {
        TimerColor::DarkCyan
    } else if chars_eq_str(&lower, "dark_green") {
        TimerColor::DarkGreen
    } else if chars_eq_str(&lower, "dark_grey") || chars_eq_str(&lower, "dark_gray") {
        TimerColor::DarkGrey
    } else if chars_eq_str(&lower, "dark_magenta") {
        TimerColor::DarkMagenta
    } else if chars_eq_str(&lower, "dark_red") {
        TimerColor::DarkRed
    } else if chars_eq_str(&lower, "dark_yellow") {
        TimerColor::DarkYellow
    } else if chars_eq_str(&lower, "green") {
        TimerColor::Green
    } else if chars_eq_str(&lower, "grey") || chars_eq_str(&lower, "gray") {
        TimerColor::Grey
    } else if chars_eq_str(&lower, "magenta") {
        TimerColor::Magenta
    } else if chars_eq_str(&lower, "red") {
        TimerColor::Red
    } else if chars_eq_str(&lower, "white") {
        TimerColor::White
    } else if chars_eq_str(&lower, "yellow") {
        TimerColor::Yellow
    } else {
        TimerColor::Reset
    }
}

} // verus!
