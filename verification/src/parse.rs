//! Parsing of user-supplied duration strings and Pomodoro settings.
//!
//! A duration string is one to three colon-delimited fields (`SS`, `MM:SS`
//! or `HH:MM:SS`); each field is a non-negative decimal integer, with
//! surrounding whitespace and an optional leading `+` tolerated. Seconds
//! and minutes in excess carry leftwards, so `0:75` means 75 seconds.
//! A Pomodoro settings string is `WORK/BREAK/CYCLES` with one to three
//! slash-delimited fields; a missing or malformed field silently falls
//! back to that field's default rather than failing the parse.

use crate::timefmt::{dec_chars, digit_char, spec_format_countdown, two_dec_chars};
use vstd::prelude::*;

verus! {

/// How a duration string failed to parse.
#[derive(Clone, Copy, Debug, PartialEq, Eq, Structural)]
pub enum ParseError {
    /// The number of colon-delimited fields is not between one and three.
    BadShape,
    /// The field at this position (leftmost is 0) is not a valid
    /// non-negative integer.
    InvalidField(usize),
}

/// Whitespace as the `White_Space` property defines it; these characters
/// are tolerated around a duration field.
pub open spec fn is_space_char(c: char) -> bool {
    let u = c as u32;
    u == 0x20 || (0x09 <= u && u <= 0x0D) || u == 0x85 || u == 0xA0 || u == 0x1680 || (0x2000
        <= u && u <= 0x200A) || u == 0x2028 || u == 0x2029 || u == 0x202F || u == 0x205F || u
        == 0x3000
}

/// A decimal digit character.
pub open spec fn is_digit_char(c: char) -> bool {
    48 <= c as u32 && c as u32 <= 57
}

/// The value of a decimal digit character.
pub open spec fn digit_value(c: char) -> int {
    c as u32 - 48
}

/// The value of a sequence of decimal digit characters, most significant
/// first.
pub open spec fn digits_value(s: Seq<char>) -> int
    decreases s.len(),
{
    if s.len() == 0 {
        0
    } else {
        digits_value(s.drop_last()) * 10 + digit_value(s.last())
    }
}

/// A non-empty sequence of decimal digit characters.
pub open spec fn all_digits(s: Seq<char>) -> bool {
    s.len() > 0 && forall|i: int| 0 <= i < s.len() ==> is_digit_char(s[i])
}

/// The sequence with leading whitespace removed.
pub open spec fn trim_front(s: Seq<char>) -> Seq<char>
    decreases s.len(),
{
    if s.len() > 0 && is_space_char(s[0]) {
        trim_front(s.drop_first())
    } else {
        s
    }
}

/// The sequence with trailing whitespace removed.
pub open spec fn trim_back(s: Seq<char>) -> Seq<char>
    decreases s.len(),
{
    if s.len() > 0 && is_space_char(s.last()) {
        trim_back(s.drop_last())
    } else {
        s
    }
}

/// The sequence with surrounding whitespace removed.
pub open spec fn trimmed(s: Seq<char>) -> Seq<char> {
    trim_back(trim_front(s))
}

/// The digits of a field: everything after an optional leading `+`.
pub open spec fn digits_part(s: Seq<char>) -> Seq<char> {
    if s.len() > 0 && s[0] == '+' {
        s.drop_first()
    } else {
        s
    }
}

/// A field parses as a non-negative integer when, stripped of an optional
/// leading `+`, it is all digits and its value fits in a `u64`.
pub open spec fn raw_field_valid(f: Seq<char>) -> bool {
    all_digits(digits_part(f)) && digits_value(digits_part(f)) <= u64::MAX
}

/// The value of a field that `raw_field_valid` accepts.
pub open spec fn raw_field_value(f: Seq<char>) -> int {
    digits_value(digits_part(f))
}

/// A duration field parses like a raw field after surrounding whitespace
/// is removed.
pub open spec fn field_valid(f: Seq<char>) -> bool {
    raw_field_valid(trimmed(f))
}

/// The value of a duration field that `field_valid` accepts.
pub open spec fn field_value(f: Seq<char>) -> int {
    raw_field_value(trimmed(f))
}

/// The fields of `s` delimited by `sep`: a lone empty field for the empty
/// sequence, and one more field than there are separators otherwise.
pub open spec fn split_char(s: Seq<char>, sep: char) -> Seq<Seq<char>>
    decreases s.len(),
{
    if s.len() == 0 {
        seq![Seq::<char>::empty()]
    } else if s[0] == sep {
        seq![Seq::<char>::empty()] + split_char(s.drop_first(), sep)
    } else {
        let rest = split_char(s.drop_first(), sep);
        seq![seq![s[0]] + rest[0]] + rest.drop_first()
    }
}

/// Splitting yields at least one field.
pub proof fn lemma_split_nonempty(s: Seq<char>, sep: char)
    ensures
        split_char(s, sep).len() >= 1,
    decreases s.len(),
{
    if s.len() > 0 {
        lemma_split_nonempty(s.drop_first(), sep);
    }
}

/// The value of a digit sequence never shrinks as digits are appended.
proof fn lemma_digits_value_bounds(s: Seq<char>)
    requires
        forall|i: int| 0 <= i < s.len() ==> is_digit_char(s[i]),
    ensures
        digits_value(s) >= 0,
        s.len() > 0 ==> digits_value(s) >= digits_value(s.drop_last()),
    decreases s.len(),
{
    if s.len() > 0 {
        lemma_digits_value_bounds(s.drop_last());
        assert(digits_value(s) == digits_value(s.drop_last()) * 10 + digit_value(s.last()));
        assert(digits_value(s.drop_last()) * 10 >= digits_value(s.drop_last())) by (nonlinear_arith)
            requires
                digits_value(s.drop_last()) >= 0,
        ;
    }
}

/// A prefix of a digit sequence never has a larger value than the whole.
proof fn lemma_digits_value_prefix(s: Seq<char>, n: int)
    requires
        forall|i: int| 0 <= i < s.len() ==> is_digit_char(s[i]),
        0 <= n <= s.len(),
    ensures
        digits_value(s.subrange(0, n)) <= digits_value(s),
        digits_value(s) >= 0,
    decreases s.len() - n,
{
    lemma_digits_value_bounds(s);
    if n < s.len() {
        lemma_digits_value_prefix(s, n + 1);
        let p = s.subrange(0, n + 1);
        assert(p.drop_last() =~= s.subrange(0, n));
        assert(forall|i: int| 0 <= i < p.len() ==> is_digit_char(p[i]));
        lemma_digits_value_bounds(p);
    } else {
        assert(s.subrange(0, n) =~= s);
    }
}

/// Splits the characters of `chars` on `sep`, keeping empty fields.
fn split_on(chars: &Vec<char>, sep: char) -> (fields: Vec<Vec<char>>)
    ensures
        fields@.map_values(|f: Vec<char>| f@) == split_char(chars@, sep),
        fields@.len() >= 1,
{
    let ghost all = chars@;
    let n = chars.len();
    let mut done: Vec<Vec<char>> = Vec::new();
    let mut cur: Vec<char> = Vec::new();
    let mut i: usize = 0;
    proof {
        assert(all.subrange(0, n as int) =~= all);
    }
    while i < n
        invariant
            0 <= i <= n,
            n == all.len(),
            chars@ == all,
            split_char(all, sep) == done@.map_values(|f: Vec<char>| f@) + seq![
                cur@ + split_char(all.subrange(i as int, n as int), sep)[0],
            ] + split_char(all.subrange(i as int, n as int), sep).drop_first(),
        decreases n - i,
    {
        let ghost suffix = all.subrange(i as int, n as int);
        let ghost tail = all.subrange(i as int + 1, n as int);
        proof {
            assert(suffix.len() > 0);
            assert(suffix[0] == all[i as int]);
            assert(suffix.drop_first() =~= tail);
            lemma_split_nonempty(tail, sep);
        }
        let c = chars[i];
        if c == sep {
            proof {
                assert(split_char(suffix, sep) == seq![Seq::<char>::empty()] + split_char(
                    tail,
                    sep,
                ));
                assert(split_char(suffix, sep)[0] =~= Seq::<char>::empty());
                assert(split_char(suffix, sep).drop_first() =~= split_char(tail, sep));
                assert(cur@ + split_char(suffix, sep)[0] =~= cur@);
                assert(split_char(tail, sep) =~= seq![split_char(tail, sep)[0]] + split_char(
                    tail,
                    sep,
                ).drop_first());
            }
            let finished = cur;
            done.push(finished);
            cur = Vec::new();
            proof {
                let dmap = done@.map_values(|f: Vec<char>| f@);
                assert(dmap =~= dmap.drop_last().push(finished@));
                assert(dmap.drop_last() =~= done@.drop_last().map_values(|f: Vec<char>| f@));
                assert(split_char(all, sep) =~= done@.map_values(|f: Vec<char>| f@) + seq![
                    cur@ + split_char(tail, sep)[0],
                ] + split_char(tail, sep).drop_first());
            }
        } else {
            proof {
                let rest = split_char(tail, sep);
                assert(split_char(suffix, sep) == seq![seq![suffix[0]] + rest[0]]
                    + rest.drop_first());
                assert(split_char(suffix, sep)[0] == seq![suffix[0]] + rest[0]);
                assert(split_char(suffix, sep).drop_first() =~= rest.drop_first());
                assert(cur@.push(all[i as int]) + rest[0] =~= cur@ + (seq![suffix[0]] + rest[0]));
            }
            cur.push(c);
        }
        i = i + 1;
    }
    proof {
        let suffix = all.subrange(n as int, n as int);
        assert(suffix =~= Seq::<char>::empty());
        assert(split_char(suffix, sep) == seq![Seq::<char>::empty()]);
        assert(cur@ + split_char(suffix, sep)[0] =~= cur@);
        assert(split_char(suffix, sep).drop_first() =~= Seq::<Seq<char>>::empty());
    }
    let last = cur;
    done.push(last);
    proof {
        let dmap = done@.map_values(|f: Vec<char>| f@);
        assert(dmap =~= dmap.drop_last().push(last@));
        assert(dmap.drop_last() =~= done@.drop_last().map_values(|f: Vec<char>| f@));
        assert(split_char(all, sep) =~= done@.map_values(|f: Vec<char>| f@));
    }
    done
}

/// Parses a field as `str::parse::<u64>` does, without trimming: an
/// optional leading `+`, then decimal digits whose value fits in a `u64`.
fn parse_raw_field(f: &Vec<char>, from: usize, to: usize) -> (r: Option<u64>)
    requires
        0 <= from <= to <= f@.len(),
    ensures
        match r {
            Some(v) => raw_field_valid(f@.subrange(from as int, to as int)) && v
                == raw_field_value(f@.subrange(from as int, to as int)),
            None => !raw_field_valid(f@.subrange(from as int, to as int)),
        },
{
    let ghost field = f@.subrange(from as int, to as int);
    let ghost digits = digits_part(field);
    let mut start = from;
    if from < to && f[from] == '+' {
        start = from + 1;
        proof {
            assert(digits =~= f@.subrange(start as int, to as int));
        }
    } else {
        proof {
            assert(digits =~= field);
        }
    }
    if start == to {
        proof {
            assert(digits.len() == 0);
        }
        return None;
    }
    let mut acc: u64 = 0;
    let mut i = start;
    proof {
        assert(digits.subrange(0, 0) =~= Seq::<char>::empty());
    }
    while i < to
        invariant
            start <= i <= to <= f@.len(),
            digits == f@.subrange(start as int, to as int),
            digits == digits_part(f@.subrange(from as int, to as int)),
            from <= start < to,
            forall|j: int| 0 <= j < i - start ==> is_digit_char(digits[j]),
            acc == digits_value(digits.subrange(0, i - start)),
        decreases to - i,
    {
        let c = f[i];
        let u = c as u32;
        proof {
            assert(digits[i - start] == f@[i as int]);
        }
        if u < 48 || u > 57 {
            proof {
                assert(!is_digit_char(digits[i - start]));
            }
            return None;
        }
        let d = (u - 48) as u64;
        let ghost prefix = digits.subrange(0, i - start);
        let ghost prefix1 = digits.subrange(0, i - start + 1);
        proof {
            assert(prefix1.drop_last() =~= prefix);
            assert(digits_value(prefix1) == acc * 10 + d);
        }
        let step = match acc.checked_mul(10) {
            Some(x) => x.checked_add(d),
            None => None,
        };
        match step {
            Some(x) => {
                acc = x;
            },
            None => {
                proof {
                    assert(digits_value(prefix1) > u64::MAX);
                    if all_digits(digits) {
                        lemma_digits_value_prefix(digits, i - start + 1);
                        assert(digits_value(digits) > u64::MAX);
                    }
                }
                return None;
            },
        }
        i = i + 1;
    }
    proof {
        assert(digits.subrange(0, to - start) =~= digits);
        assert(all_digits(digits));
    }
    Some(acc)
}

/// Parses a duration field: surrounding whitespace is removed first.
fn parse_field(f: &Vec<char>) -> (r: Option<u64>)
    ensures
        match r {
            Some(v) => field_valid(f@) && v == field_value(f@),
            None => !field_valid(f@),
        },
{
    let mut from: usize = 0;
    let mut to: usize = f.len();
    proof {
        assert(f@.subrange(0, f@.len() as int) =~= f@);
    }
    while from < to && is_space(f[from])
        invariant
            0 <= from <= to <= f@.len(),
            to == f@.len(),
            trim_front(f@) == trim_front(f@.subrange(from as int, to as int)),
        decreases to - from,
    {
        proof {
            let s = f@.subrange(from as int, to as int);
            assert(s[0] == f@[from as int]);
            assert(s.drop_first() =~= f@.subrange(from as int + 1, to as int));
        }
        from = from + 1;
    }
    proof {
        let s = f@.subrange(from as int, to as int);
        if s.len() > 0 {
            assert(s[0] == f@[from as int]);
        }
        assert(trim_front(f@) == s);
    }
    while to > from && is_space(f[to - 1])
        invariant
            0 <= from <= to <= f@.len(),
            trimmed(f@) == trim_back(f@.subrange(from as int, to as int)),
        decreases to,
    {
        proof {
            let s = f@.subrange(from as int, to as int);
            assert(s.last() == f@[to - 1]);
            assert(s.drop_last() =~= f@.subrange(from as int, to as int - 1));
        }
        to = to - 1;
    }
    proof {
        let s = f@.subrange(from as int, to as int);
        if s.len() > 0 {
            assert(s.last() == f@[to - 1]);
        }
        assert(trimmed(f@) == s);
    }
    parse_raw_field(f, from, to)
}

/// Whitespace test mirroring `is_space_char`.
fn is_space(c: char) -> (r: bool)
    ensures
        r == is_space_char(c),
{
    let u = c as u32;
    u == 0x20 || (0x09 <= u && u <= 0x0D) || u == 0x85 || u == 0xA0 || u == 0x1680 || (0x2000 <= u
        && u <= 0x200A) || u == 0x2028 || u == 0x2029 || u == 0x202F || u == 0x205F || u == 0x3000
}

/// A duration string has an acceptable shape when it is non-empty and has
/// at most three colon-delimited fields.
pub open spec fn time_shape_ok(s: Seq<char>) -> bool {
    s.len() > 0 && split_char(s, ':').len() <= 3
}

/// A duration string parses when its shape is acceptable and every field
/// is a valid non-negative integer.
pub open spec fn time_parse_ok(s: Seq<char>) -> bool {
    time_shape_ok(s) && (forall|i: int|
        0 <= i < split_char(s, ':').len() ==> field_valid(split_char(s, ':')[i]))
}

/// The total seconds of a duration string that parses: one field is
/// seconds, two are minutes and seconds, three are hours, minutes and
/// seconds. A field in excess of its unit carries leftwards, which is the
/// same total.
pub open spec fn time_value(s: Seq<char>) -> int {
    let fs = split_char(s, ':');
    if fs.len() == 1 {
        field_value(fs[0])
    } else if fs.len() == 2 {
        field_value(fs[0]) * 60 + field_value(fs[1])
    } else {
        field_value(fs[0]) * 3600 + field_value(fs[1]) * 60 + field_value(fs[2])
    }
}

/// The position of the first field that is not a valid non-negative
/// integer.
pub open spec fn first_invalid_field(fs: Seq<Seq<char>>) -> int
    decreases fs.len(),
{
    if fs.len() == 0 {
        0
    } else if !field_valid(fs[0]) {
        0
    } else {
        1 + first_invalid_field(fs.drop_first())
    }
}

/// The value of a field that parses is non-negative.
pub proof fn lemma_field_value_nonneg(f: Seq<char>)
    requires
        field_valid(f),
    ensures
        field_value(f) >= 0,
{
    lemma_digits_value_bounds(digits_part(trimmed(f)));
}

/// Parses a duration string of one to three colon-delimited fields into
/// total seconds; excess seconds and minutes carry leftwards. An empty
/// string or more than three fields is a shape error; otherwise the first
/// field that is not a non-negative integer is reported. The caller keeps
/// the total out of the range a `u64` cannot hold.
pub fn parse_time_string(time_str: &str) -> (r: Result<u64, ParseError>)
    requires
        time_parse_ok(time_str@) ==> time_value(time_str@) <= u64::MAX,
    ensures
        time_parse_ok(time_str@) ==> r == Ok::<u64, ParseError>(time_value(time_str@) as u64),
        !time_shape_ok(time_str@) ==> r == Err::<u64, ParseError>(ParseError::BadShape),
        time_shape_ok(time_str@) && !time_parse_ok(time_str@) ==> r == Err::<u64, ParseError>(
            ParseError::InvalidField(first_invalid_field(split_char(time_str@, ':')) as usize),
        ),
{
    let ghost fs = split_char(time_str@, ':');
    let chars = str_chars(time_str);
    if chars.len() == 0 {
        return Err(ParseError::BadShape);
    }
    let fields = split_on(&chars, ':');
    if fields.len() > 3 {
        return Err(ParseError::BadShape);
    }
    proof {
        assert(fields@.map_values(|f: Vec<char>| f@).len() == fields@.len());
        assert(forall|i: int| 0 <= i < fields@.len() ==> fs[i] == fields@[i]@);
    }
    let v0 = match parse_field(&fields[0]) {
        Some(v) => v,
        None => {
            proof {
                assert(first_invalid_field(fs) == 0);
            }
            return Err(ParseError::InvalidField(0));
        },
    };
    proof {
        lemma_field_value_nonneg(fs[0]);
    }
    if fields.len() == 1 {
        return Ok(v0);
    }
    proof {
        assert(fs.drop_first()[0] == fs[1]);
        assert(fs.drop_first().drop_first()[0] == fs[2] || fs.len() == 2);
    }
    let v1 = match parse_field(&fields[1]) {
        Some(v) => v,
        None => {
            proof {
                assert(first_invalid_field(fs.drop_first()) == 0);
                assert(first_invalid_field(fs) == 1);
            }
            return Err(ParseError::InvalidField(1));
        },
    };
    proof {
        lemma_field_value_nonneg(fs[1]);
    }
    if fields.len() == 2 {
        let total = v0 * 60 + v1;
        return Ok(total);
    }
    let v2 = match parse_field(&fields[2]) {
        Some(v) => v,
        None => {
            proof {
                assert(fs.drop_first()[0] == fs[1]);
                assert(fs.drop_first().drop_first()[0] == fs[2]);
                assert(first_invalid_field(fs.drop_first().drop_first()) == 0);
                assert(first_invalid_field(fs.drop_first()) == 1);
                assert(first_invalid_field(fs) == 2);
            }
            return Err(ParseError::InvalidField(2));
        },
    };
    proof {
        lemma_field_value_nonneg(fs[2]);
    }
    let total = v0 * 3600 + v1 * 60 + v2;
    Ok(total)
}

/// The work minutes encoded by a Pomodoro settings string; a missing or
/// malformed leading field falls back to 25.
pub open spec fn spec_pomodoro_work(s: Seq<char>) -> int {
    let fs = split_char(s, '/');
    if s.len() > 0 && raw_field_valid(fs[0]) && raw_field_value(fs[0]) > 0 {
        raw_field_value(fs[0])
    } else {
        25
    }
}

/// The break minutes encoded by a Pomodoro settings string; a missing or
/// malformed second field falls back to 5.
pub open spec fn spec_pomodoro_break(s: Seq<char>) -> int {
    let fs = split_char(s, '/');
    if s.len() > 0 && fs.len() > 1 && raw_field_valid(fs[1]) && raw_field_value(fs[1]) > 0 {
        raw_field_value(fs[1])
    } else {
        5
    }
}

/// The cycle count encoded by a Pomodoro settings string; a missing or
/// malformed third field falls back to 0, which means unbounded.
pub open spec fn spec_pomodoro_cycles(s: Seq<char>) -> int {
    let fs = split_char(s, '/');
    if s.len() > 0 && fs.len() > 2 && raw_field_valid(fs[2]) {
        raw_field_value(fs[2])
    } else {
        0
    }
}

/// Parses a Pomodoro settings string of shape `WORK/BREAK/CYCLES` into
/// `(work_minutes, break_minutes, cycles)`. Work and break must be
/// positive integers and cycles a non-negative integer; each field that is
/// absent or malformed falls back to its default of 25, 5 or 0 instead of
/// failing the parse. A cycle count of 0 means unbounded.
pub fn parse_pomodoro_config(config_str: &str) -> (r: (u64, u64, u64))
    ensures
        r.0 == spec_pomodoro_work(config_str@),
        r.1 == spec_pomodoro_break(config_str@),
        r.2 == spec_pomodoro_cycles(config_str@),
{
    let ghost fs = split_char(config_str@, '/');
    let chars = str_chars(config_str);
    if chars.len() == 0 {
        return (25, 5, 0);
    }
    let fields = split_on(&chars, '/');
    proof {
        assert(forall|i: int| 0 <= i < fields@.len() ==> fs[i] == fields@[i]@);
        assert(fields@[0]@.subrange(0, fields@[0]@.len() as int) =~= fs[0]);
    }
    let f0 = &fields[0];
    let work = match parse_raw_field(f0, 0, f0.len()) {
        Some(v) => if v > 0 {
            v
        } else {
            25
        },
        None => 25,
    };
    let brk = if fields.len() > 1 {
        proof {
            assert(fields@[1]@.subrange(0, fields@[1]@.len() as int) =~= fs[1]);
        }
        let f1 = &fields[1];
        match parse_raw_field(f1, 0, f1.len()) {
            Some(v) => if v > 0 {
                v
            } else {
                5
            },
            None => 5,
        }
    } else {
        5
    };
    let cycles = if fields.len() > 2 {
        proof {
            assert(fields@[2]@.subrange(0, fields@[2]@.len() as int) =~= fs[2]);
        }
        let f2 = &fields[2];
        match parse_raw_field(f2, 0, f2.len()) {
            Some(v) => v,
            None => 0,
        }
    } else {
        0
    };
    (work, brk, cycles)
}

/// The canonical `H:MM:SS` rendering of an hour-minute-second triple,
/// minutes and seconds zero-padded to two digits.
pub open spec fn spec_hms_string(h: nat, m: nat, s: nat) -> Seq<char> {
    dec_chars(h) + seq![':'] + two_dec_chars(m) + seq![':'] + two_dec_chars(s)
}

/// A decimal rendering is one or more digit characters.
proof fn lemma_dec_chars_digits(n: nat)
    ensures
        dec_chars(n).len() >= 1,
        forall|i: int| 0 <= i < dec_chars(n).len() ==> is_digit_char(dec_chars(n)[i]),
    decreases n,
{
    if n >= 10 {
        lemma_dec_chars_digits(n / 10);
        assert(forall|i: int|
            0 <= i < dec_chars(n / 10).len() ==> dec_chars(n)[i] == dec_chars(n / 10)[i]);
    }
}

/// The value of a decimal rendering is the number it renders.
proof fn lemma_dec_chars_value(n: nat)
    ensures
        digits_value(dec_chars(n)) == n,
    decreases n,
{
    if n < 10 {
        let c = digit_char(n as int);
        assert(dec_chars(n).drop_last() =~= Seq::<char>::empty());
        assert(dec_chars(n).last() == c);
        assert(digits_value(Seq::<char>::empty()) == 0);
        assert(c as u32 == 48 + n);
        assert(digits_value(dec_chars(n)) == digit_value(c));
    } else {
        lemma_dec_chars_value(n / 10);
        let c = digit_char((n % 10) as int);
        assert(dec_chars(n).drop_last() =~= dec_chars(n / 10));
        assert(c as u32 == 48 + n % 10);
        assert(digits_value(dec_chars(n)) == digits_value(dec_chars(n / 10)) * 10 + digit_value(
            c,
        ));
        vstd::arithmetic::div_mod::lemma_fundamental_div_mod(n as int, 10);
    }
}

/// A zero-padded rendering is one or more digit characters.
proof fn lemma_two_dec_chars_digits(n: nat)
    ensures
        two_dec_chars(n).len() >= 1,
        forall|i: int| 0 <= i < two_dec_chars(n).len() ==> is_digit_char(two_dec_chars(n)[i]),
{
    lemma_dec_chars_digits(n);
}

/// The value of a zero-padded rendering is the number it renders.
proof fn lemma_two_dec_chars_value(n: nat)
    ensures
        digits_value(two_dec_chars(n)) == n,
{
    if n < 10 {
        let s = two_dec_chars(n);
        let c = digit_char(n as int);
        assert(s.drop_last() =~= seq!['0']);
        assert(s.last() == c);
        assert(seq!['0'].drop_last() =~= Seq::<char>::empty());
        assert(seq!['0'].last() == '0');
        assert(digits_value(Seq::<char>::empty()) == 0);
        assert('0' as u32 == 48);
        assert(digits_value(seq!['0']) == digit_value('0'));
        assert(c as u32 == 48 + n);
        assert(digits_value(s) == digits_value(seq!['0']) * 10 + digit_value(c));
    } else {
        lemma_dec_chars_value(n);
    }
}

/// Splitting a separator-free sequence yields it as the only field.
proof fn lemma_split_no_sep(a: Seq<char>, sep: char)
    requires
        forall|i: int| 0 <= i < a.len() ==> a[i] != sep,
    ensures
        split_char(a, sep) == seq![a],
    decreases a.len(),
{
    if a.len() == 0 {
        assert(split_char(a, sep) =~~= seq![a]);
    } else {
        lemma_split_no_sep(a.drop_first(), sep);
        let rest = split_char(a.drop_first(), sep);
        assert(rest == seq![a.drop_first()]);
        assert(seq![a[0]] + rest[0] =~= a);
        assert(rest.drop_first() =~= Seq::<Seq<char>>::empty());
        assert(split_char(a, sep) =~~= seq![a]);
    }
}

/// A separator after a separator-free prefix cuts the split there.
proof fn lemma_split_sep_concat(a: Seq<char>, b: Seq<char>, sep: char)
    requires
        forall|i: int| 0 <= i < a.len() ==> a[i] != sep,
    ensures
        split_char(a + seq![sep] + b, sep) == seq![a] + split_char(b, sep),
    decreases a.len(),
{
    let s = a + seq![sep] + b;
    if a.len() == 0 {
        assert(s[0] == sep);
        assert(s.drop_first() =~= b);
        assert(split_char(s, sep) =~~= seq![a] + split_char(b, sep));
    } else {
        assert(s[0] == a[0]);
        assert(s.drop_first() =~= a.drop_first() + seq![sep] + b);
        lemma_split_sep_concat(a.drop_first(), b, sep);
        lemma_split_nonempty(b, sep);
        let rest = split_char(s.drop_first(), sep);
        assert(rest == seq![a.drop_first()] + split_char(b, sep));
        assert(rest[0] == a.drop_first());
        assert(seq![a[0]] + rest[0] =~= a);
        assert(rest.drop_first() =~= split_char(b, sep));
        assert(split_char(s, sep) =~~= seq![a] + split_char(b, sep));
    }
}

/// A string of digits whose value fits is a valid field worth that value.
proof fn lemma_field_of_digits(f: Seq<char>)
    requires
        all_digits(f),
        digits_value(f) <= u64::MAX,
    ensures
        field_valid(f),
        field_value(f) == digits_value(f),
{
    assert(is_digit_char(f[0]) && !is_space_char(f[0]) && f[0] != '+');
    assert(is_digit_char(f.last()) && !is_space_char(f.last()));
    assert(trim_front(f) == f);
    assert(trim_back(f) == f);
    assert(digits_part(f) == f);
}

/// Round trip through the canonical rendering: for any hours, and minutes
/// and seconds below 60, the string `H:MM:SS` parses, and its value is
/// the total seconds the triple denotes.
pub proof fn lemma_parse_formatted_round_trip(h: u64, m: u64, s: u64)
    requires
        m < 60,
        s < 60,
        h * 3600 + m * 60 + s <= u64::MAX,
    ensures
        time_parse_ok(spec_hms_string(h as nat, m as nat, s as nat)),
        time_value(spec_hms_string(h as nat, m as nat, s as nat)) == h * 3600 + m * 60 + s,
{
    let hs = dec_chars(h as nat);
    let ms = two_dec_chars(m as nat);
    let ss = two_dec_chars(s as nat);
    let full = spec_hms_string(h as nat, m as nat, s as nat);
    lemma_dec_chars_digits(h as nat);
    lemma_dec_chars_value(h as nat);
    lemma_two_dec_chars_digits(m as nat);
    lemma_two_dec_chars_value(m as nat);
    lemma_two_dec_chars_digits(s as nat);
    lemma_two_dec_chars_value(s as nat);
    assert(full =~= hs + seq![':'] + (ms + seq![':'] + ss));
    lemma_split_sep_concat(hs, ms + seq![':'] + ss, ':');
    lemma_split_sep_concat(ms, ss, ':');
    lemma_split_no_sep(ss, ':');
    let fs = split_char(full, ':');
    assert(fs =~= seq![hs, ms, ss]);
    assert(fs.len() == 3);
    lemma_field_of_digits(hs);
    lemma_field_of_digits(ms);
    lemma_field_of_digits(ss);
    assert(forall|i: int| 0 <= i < 3 ==> field_valid(#[trigger] fs[i]));
    assert(time_value(full) == h * 3600 + m * 60 + s);
}

/// Reformatting round-trips: the countdown display string of any number
/// of remaining seconds parses back to exactly that number. In
/// particular, a parsed duration whose excess carried leftwards shows the
/// normalized time.
pub proof fn lemma_format_countdown_round_trip(r: u64)
    ensures
        time_parse_ok(spec_format_countdown(r as nat)),
        time_value(spec_format_countdown(r as nat)) == r,
{
    let minutes = r as nat / 60;
    let seconds = r as nat % 60;
    vstd::arithmetic::div_mod::lemma_fundamental_div_mod(r as int, 60);
    if minutes >= 60 {
        let h = minutes / 60;
        let mm = minutes % 60;
        vstd::arithmetic::div_mod::lemma_fundamental_div_mod(minutes as int, 60);
        assert(spec_format_countdown(r as nat) =~= spec_hms_string(h, mm, seconds));
        assert(r == h * 3600 + mm * 60 + seconds) by (nonlinear_arith)
            requires
                r as nat / 60 == minutes,
                r as nat % 60 == seconds,
                minutes == 60 * h + mm,
                r == 60 * (r as nat / 60) + r as nat % 60,
        ;
        assert(h <= u64::MAX && mm < 60 && seconds < 60);
        lemma_parse_formatted_round_trip(h as u64, mm as u64, seconds as u64);
    } else {
        let full = spec_format_countdown(r as nat);
        let ms = dec_chars(minutes);
        let ss = two_dec_chars(seconds);
        lemma_dec_chars_digits(minutes);
        lemma_dec_chars_value(minutes);
        lemma_two_dec_chars_digits(seconds);
        lemma_two_dec_chars_value(seconds);
        assert(full =~= ms + seq![':'] + ss);
        lemma_split_sep_concat(ms, ss, ':');
        lemma_split_no_sep(ss, ':');
        let fs = split_char(full, ':');
        assert(fs =~= seq![ms, ss]);
        lemma_field_of_digits(ms);
        lemma_field_of_digits(ss);
        assert(forall|i: int| 0 <= i < 2 ==> field_valid(#[trigger] fs[i]));
        assert(time_value(full) == minutes * 60 + seconds);
    }
}

/// The characters of `s`, as a vector.
pub fn str_chars(s: &str) -> (r: Vec<char>)
    ensures
        r@ == s@,
{
    let n = s.unicode_len();
    let mut r: Vec<char> = Vec::new();
    let mut i: usize = 0;
    while i < n
        invariant
            0 <= i <= n,
            n == s@.len(),
            r@ == s@.subrange(0, i as int),
        decreases n - i,
    {
        let c = s.get_char(i);
        r.push(c);
        proof {
            assert(r@ =~= s@.subrange(0, i + 1 as int));
        }
        i = i + 1;
    }
    proof {
        assert(r@ =~= s@);
    }
    r
}

} // verus!
