//! Glyph-art rendering of a time display string.
//!
//! Every character maps to a glyph of five lines of five characters:
//! digits, the colon, the dot, and a blank glyph for anything else. A
//! display string renders as a rectangular block whose line `i` is the
//! concatenation of line `i` of each character's glyph, in input order.

use crate::timefmt::digit_char;
use vstd::prelude::*;

verus! {

/// Lines in every glyph, and so in every rendered frame.
pub const GLYPH_HEIGHT: usize = 5;

/// Columns in every glyph.
pub const GLYPH_WIDTH: usize = 5;

/// The five lines of the glyph for `c`: a digit, the colon, the dot, or
/// the blank glyph for any other character.
pub open spec fn spec_glyph(c: char) -> Seq<Seq<char>> {
    if c == '0' {
        seq![".---."@, "|   |"@, "|   |"@, "|   |"@, "'---'"@]
    } else if c == '1' {
        seq!["  .  "@, "  |  "@, "  |  "@, "  |  "@, "  |  "@]
    } else if c == '2' {
        seq![".---."@, "    |"@, ".---."@, "|    "@, "'---'"@]
    } else if c == '3' {
        seq![".---."@, "    |"@, ".---."@, "    |"@, "'---'"@]
    } else if c == '4' {
        seq!["|   |"@, "|   |"@, "'---|"@, "    |"@, "    |"@]
    } else if c == '5' {
        seq![".---."@, "|    "@, "'---."@, "    |"@, "'---'"@]
    } else if c == '6' {
        seq![".---."@, "|    "@, "|---."@, "|   |"@, "'---'"@]
    } else if c == '7' {
        seq![".---."@, "    |"@, "    |"@, "    |"@, "    |"@]
    } else if c == '8' {
        seq![".---."@, "|   |"@, "|---."@, "|   |"@, "'---'"@]
    } else if c == '9' {
        seq![".---."@, "|   |"@, "'---|"@, "    |"@, "'---'"@]
    } else if c == ':' {
        seq!["     "@, "  o  "@, "     "@, "  o  "@, "     "@]
    } else if c == '.' {
        seq!["     "@, "     "@, "     "@, "     "@, "  o  "@]
    } else {
        seq!["     "@, "     "@, "     "@, "     "@, "     "@]
    }
}

/// Line `i` of the glyph for `c`.
pub open spec fn spec_glyph_line(c: char, i: int) -> Seq<char> {
    spec_glyph(c)[i]
}

/// The character whose glyph `get_digit` returns: the digit itself for 0
/// through 9, the blank-glyph character otherwise.
pub open spec fn glyph_char_for_digit(d: u8) -> char {
    if d <= 9 {
        digit_char(d as int)
    } else {
        ' '
    }
}

/// Every glyph line is `GLYPH_WIDTH` characters.
pub proof fn lemma_glyph_line_len(c: char, i: int)
    requires
        0 <= i < GLYPH_HEIGHT,
    ensures
        spec_glyph_line(c, i).len() == GLYPH_WIDTH,
{
    reveal_strlit(".---.");
    reveal_strlit("|   |");
    reveal_strlit("'---'");
    reveal_strlit("  .  ");
    reveal_strlit("  |  ");
    reveal_strlit("    |");
    reveal_strlit("|    ");
    reveal_strlit("'---.");
    reveal_strlit("'---|");
    reveal_strlit("|---.");
    reveal_strlit("     ");
    reveal_strlit("  o  ");
}

/// Glyph art for a decimal digit; any other value gets the blank glyph.
pub fn get_digit(digit: u8) -> (r: Vec<&'static str>)
    ensures
        r@.len() == GLYPH_HEIGHT,
        forall|i: int|
            0 <= i < r@.len() ==> r@[i]@ == spec_glyph_line(glyph_char_for_digit(digit), i),
{
    match digit {
        0 => vec![".---.", "|   |", "|   |", "|   |", "'---'"],
        1 => vec!["  .  ", "  |  ", "  |  ", "  |  ", "  |  "],
        2 => vec![".---.", "    |", ".---.", "|    ", "'---'"],
        3 => vec![".---.", "    |", ".---.", "    |", "'---'"],
        4 => vec!["|   |", "|   |", "'---|", "    |", "    |"],
        5 => vec![".---.", "|    ", "'---.", "    |", "'---'"],
        6 => vec![".---.", "|    ", "|---.", "|   |", "'---'"],
        7 => vec![".---.", "    |", "    |", "    |", "    |"],
        8 => vec![".---.", "|   |", "|---.", "|   |", "'---'"],
        9 => vec![".---.", "|   |", "'---|", "    |", "'---'"],
        _ => vec!["     ", "     ", "     ", "     ", "     "],
    }
}

/// Glyph art for the colon separator.
pub fn get_colon() -> (r: Vec<&'static str>)
    ensures
        r@.len() == GLYPH_HEIGHT,
        forall|i: int| 0 <= i < r@.len() ==> r@[i]@ == spec_glyph_line(':', i),
{
    vec!["     ", "  o  ", "     ", "  o  ", "     "]
}

/// Glyph art for the dot separator.
pub fn get_dot() -> (r: Vec<&'static str>)
    ensures
        r@.len() == GLYPH_HEIGHT,
        forall|i: int| 0 <= i < r@.len() ==> r@[i]@ == spec_glyph_line('.', i),
{
    vec!["     ", "     ", "     ", "     ", "  o  "]
}

/// Glyph art for a character outside the glyph table.
fn get_blank() -> (r: Vec<&'static str>)
    ensures
        r@.len() == GLYPH_HEIGHT,
        forall|i: int| 0 <= i < r@.len() ==> r@[i]@ == "     "@,
{
    vec!["     ", "     ", "     ", "     ", "     "]
}

/// Row `i` of glyph blocks laid side by side: the concatenation of line
/// `i` of every block, in order.
pub open spec fn concat_row(gs: Seq<Seq<Seq<char>>>, i: int) -> Seq<char>
    decreases gs.len(),
{
    if gs.len() == 0 {
        Seq::empty()
    } else {
        concat_row(gs.drop_last(), i) + gs.last()[i]
    }
}

/// Concatenates glyph blocks of one shared height side by side: line `i`
/// of the result is the concatenation of line `i` of every block.
pub fn combine_digits(digits: Vec<Vec<&str>>) -> (r: Vec<String>)
    requires
        forall|j: int| 0 <= j < digits@.len() ==> (#[trigger] digits@[j]@.len()) == digits@[0]@.len(),
    ensures
        r@.len() == (if digits@.len() == 0 {
            0int
        } else {
            digits@[0]@.len() as int
        }),
        forall|i: int| 0 <= i < r@.len() ==> r@[i]@ == concat_row(digits.deep_view(), i),
{
    let ghost dv = digits.deep_view();
    proof {
        assert(dv.len() == digits@.len());
        assert(forall|j: int| 0 <= j < dv.len() ==> dv[j] =~= digits@[j].deep_view());
        assert(forall|j: int, i: int|
            0 <= j < dv.len() && 0 <= i < digits@[j]@.len() ==> dv[j][i] == digits@[j]@[i]@);
    }
    let height = if digits.len() > 0 {
        digits[0].len()
    } else {
        0
    };
    let mut r: Vec<String> = Vec::new();
    let mut i: usize = 0;
    while i < height
        invariant
            0 <= i <= height,
            dv == digits.deep_view(),
            dv.len() == digits@.len(),
            forall|j: int| 0 <= j < digits@.len() ==> digits@[j]@.len() == height,
            forall|j: int, k: int|
                0 <= j < dv.len() && 0 <= k < digits@[j]@.len() ==> dv[j][k] == digits@[j]@[k]@,
            r@.len() == i,
            forall|k: int| 0 <= k < i ==> r@[k]@ == concat_row(dv, k),
        decreases height - i,
    {
        let mut row = String::new();
        let mut j: usize = 0;
        proof {
            assert(dv.subrange(0, 0) =~= Seq::<Seq<Seq<char>>>::empty());
        }
        while j < digits.len()
            invariant
                0 <= j <= digits@.len(),
                0 <= i < height,
                dv == digits.deep_view(),
                dv.len() == digits@.len(),
                forall|jj: int| 0 <= jj < digits@.len() ==> digits@[jj]@.len() == height,
                forall|jj: int, k: int|
                    0 <= jj < dv.len() && 0 <= k < digits@[jj]@.len() ==> dv[jj][k]
                        == digits@[jj]@[k]@,
                row@ == concat_row(dv.subrange(0, j as int), i as int),
            decreases digits@.len() - j,
        {
            let line: &str = digits[j][i];
            row.append(line);
            proof {
                let pre = dv.subrange(0, j as int);
                let post = dv.subrange(0, j + 1 as int);
                assert(post.drop_last() =~= pre);
                assert(post.last() == dv[j as int]);
            }
            j = j + 1;
        }
        proof {
            assert(dv.subrange(0, dv.len() as int) =~= dv);
        }
        r.push(row);
        i = i + 1;
    }
    r
}

/// Row `i` of the rendering of display string `s`: the concatenation of
/// line `i` of each character's glyph.
pub open spec fn spec_render_row(s: Seq<char>, i: int) -> Seq<char>
    decreases s.len(),
{
    if s.len() == 0 {
        Seq::empty()
    } else {
        spec_render_row(s.drop_last(), i) + spec_glyph_line(s.last(), i)
    }
}

/// The rendered frame of display string `s`: empty for an empty string,
/// otherwise `GLYPH_HEIGHT` rows.
pub open spec fn spec_render(s: Seq<char>) -> Seq<Seq<char>> {
    if s.len() == 0 {
        Seq::empty()
    } else {
        Seq::new(GLYPH_HEIGHT as nat, |i: int| spec_render_row(s, i))
    }
}

/// A decimal digit character maps back to itself through its digit value.
proof fn lemma_digit_char_roundtrip(c: char)
    requires
        '0' <= c && c <= '9',
    ensures
        glyph_char_for_digit(((c as u32) - 48) as u8) == c,
{
}

/// Concatenating per-character glyph rows yields the rendered row.
proof fn lemma_concat_glyph_rows(gs: Seq<Seq<Seq<char>>>, s: Seq<char>, i: int)
    requires
        gs.len() == s.len(),
        forall|j: int| 0 <= j < s.len() ==> gs[j][i] == spec_glyph_line(s[j], i),
    ensures
        concat_row(gs, i) == spec_render_row(s, i),
    decreases s.len(),
{
    if s.len() > 0 {
        lemma_concat_glyph_rows(gs.drop_last(), s.drop_last(), i);
    }
}

/// A rendered row is `GLYPH_WIDTH` characters per input character.
pub proof fn lemma_render_row_len(s: Seq<char>, i: int)
    requires
        0 <= i < GLYPH_HEIGHT,
    ensures
        spec_render_row(s, i).len() == GLYPH_WIDTH * s.len(),
    decreases s.len(),
{
    if s.len() > 0 {
        lemma_render_row_len(s.drop_last(), i);
        lemma_glyph_line_len(s.last(), i);
    }
}

/// When two display strings of one length differ in exactly one
/// character, a rendered row of the one equals that row of the other
/// exactly when the changed character's glyphs agree on that line: a
/// one-character change touches the rows where its glyph changed and no
/// other.
pub proof fn lemma_render_single_change(s1: Seq<char>, s2: Seq<char>, k: int, i: int)
    requires
        s1.len() == s2.len(),
        0 <= k < s1.len(),
        forall|j: int| 0 <= j < s1.len() && j != k ==> s1[j] == s2[j],
        0 <= i < GLYPH_HEIGHT,
    ensures
        (spec_render_row(s1, i) == spec_render_row(s2, i)) <==> (spec_glyph_line(s1[k], i)
            == spec_glyph_line(s2[k], i)),
    decreases s1.len(),
{
    let r1 = spec_render_row(s1, i);
    let r2 = spec_render_row(s2, i);
    let p1 = spec_render_row(s1.drop_last(), i);
    let p2 = spec_render_row(s2.drop_last(), i);
    let g1 = spec_glyph_line(s1.last(), i);
    let g2 = spec_glyph_line(s2.last(), i);
    lemma_glyph_line_len(s1.last(), i);
    lemma_glyph_line_len(s2.last(), i);
    lemma_render_row_len(s1.drop_last(), i);
    lemma_render_row_len(s2.drop_last(), i);
    if k == s1.len() - 1 {
        assert(s1.drop_last() =~= s2.drop_last());
        if g1 == g2 {
            assert(r1 == r2);
        }
        if r1 == r2 {
            assert(g1 =~= r1.subrange(p1.len() as int, r1.len() as int));
            assert(g2 =~= r2.subrange(p2.len() as int, r2.len() as int));
        }
    } else {
        assert(s1.last() == s2.last());
        lemma_render_single_change(s1.drop_last(), s2.drop_last(), k, i);
        assert(s1.drop_last()[k] == s1[k]);
        assert(s2.drop_last()[k] == s2[k]);
        if p1 == p2 {
            assert(r1 == r2);
        }
        if r1 == r2 {
            assert(p1 =~= r1.subrange(0, p1.len() as int));
            assert(p2 =~= r2.subrange(0, p2.len() as int));
        }
    }
}

/// Renders a display string as glyph art: a rectangular block of
/// `GLYPH_HEIGHT` lines (none for an empty string), whose line `i` is the
/// concatenation of line `i` of each character's glyph.
pub fn render_time(time_string: &str) -> (r: Vec<String>)
    ensures
        r@.len() == spec_render(time_string@).len(),
        forall|i: int| 0 <= i < r@.len() ==> r@[i]@ == spec_render(time_string@)[i],
{
    let chars = crate::parse::str_chars(time_string);
    let mut arts: Vec<Vec<&'static str>> = Vec::new();
    let mut j: usize = 0;
    while j < chars.len()
        invariant
            0 <= j <= chars@.len(),
            chars@ == time_string@,
            arts@.len() == j,
            forall|k: int| 0 <= k < j ==> arts@[k]@.len() == GLYPH_HEIGHT,
            forall|k: int, i: int|
                0 <= k < j && 0 <= i < GLYPH_HEIGHT ==> arts@[k]@[i]@ == spec_glyph_line(
                    chars@[k],
                    i,
                ),
        decreases chars@.len() - j,
    {
        let c = chars[j];
        let art = if c >= '0' && c <= '9' {
            let u = c as u32;
            let d = (u - 48) as u8;
            proof {
                lemma_digit_char_roundtrip(c);
            }
            get_digit(d)
        } else if c == ':' {
            get_colon()
        } else if c == '.' {
            get_dot()
        } else {
            let b = get_blank();
            proof {
                assert(c != '0' && c != '1' && c != '2' && c != '3' && c != '4' && c != '5' && c
                    != '6' && c != '7' && c != '8' && c != '9' && c != ':' && c != '.');
                assert(forall|i: int| 0 <= i < GLYPH_HEIGHT ==> spec_glyph_line(c, i) == "     "@);
            }
            b
        };
        arts.push(art);
        j = j + 1;
    }
    let r = combine_digits(arts);
    proof {
        let dv = arts.deep_view();
        assert(dv.len() == arts@.len());
        assert(forall|k: int, i: int|
            0 <= k < dv.len() && 0 <= i < arts@[k]@.len() ==> dv[k][i] == arts@[k]@[i]@);
        if chars@.len() > 0 {
            assert(arts@[0]@.len() == GLYPH_HEIGHT);
            assert(forall|i: int| 0 <= i < r@.len() ==> r@[i]@ == concat_row(dv, i));
            assert forall|i: int| 0 <= i < r@.len() implies r@[i]@ == spec_render(time_string@)[i]
            by {
                lemma_concat_glyph_rows(dv, chars@, i);
            }
        }
    }
    r
}

} // verus!
