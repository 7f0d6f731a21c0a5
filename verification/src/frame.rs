//! The render-diff planner: minimal terminal updates between frames.
//!
//! A frame is an ordered block of text lines. Against the previously
//! displayed frame, only lines whose content changed need rewriting; when
//! there is no previous frame, or its line count differs (a resize or a
//! change of time format), the whole frame is repainted. The planner knows
//! nothing of timer semantics and works for any block of lines.

use vstd::prelude::*;

verus! {

/// One planned terminal update: write `text` at line `row` of the frame's
/// anchor, clearing the terminal line first when `clear_first` is set.
pub struct LineUpdate {
    /// Frame-relative row to write at.
    pub row: usize,
    /// Whether the terminal line must be cleared before writing; set only
    /// when overwriting a changed line of the previous frame.
    pub clear_first: bool,
    /// The new line content.
    pub text: String,
}

/// The mathematical content of a planned update: row, clear flag, text.
pub open spec fn update_view(u: LineUpdate) -> (int, bool, Seq<char>) {
    (u.row as int, u.clear_first, u.text@)
}

/// Updates repainting every one of the first `n` rows of `new`, in order,
/// without clearing.
pub open spec fn full_rows(new: Seq<Seq<char>>, n: int) -> Seq<(int, bool, Seq<char>)>
    decreases n,
{
    if n <= 0 {
        Seq::empty()
    } else {
        full_rows(new, n - 1).push((n - 1, false, new[n - 1]))
    }
}

/// Updates rewriting, in order and with a clear, exactly those of the
/// first `n` rows where `new` differs from `old`.
pub open spec fn changed_rows(old: Seq<Seq<char>>, new: Seq<Seq<char>>, n: int) -> Seq<
    (int, bool, Seq<char>),
>
    decreases n,
{
    if n <= 0 {
        Seq::empty()
    } else if old[n - 1] == new[n - 1] {
        changed_rows(old, new, n - 1)
    } else {
        changed_rows(old, new, n - 1).push((n - 1, true, new[n - 1]))
    }
}

/// The planned updates for drawing `new` after `last` was displayed: a
/// full repaint when there is no previous frame or the line count
/// changed, otherwise rewrites of exactly the changed lines.
pub open spec fn spec_plan(last: Option<Seq<Seq<char>>>, new: Seq<Seq<char>>) -> Seq<
    (int, bool, Seq<char>),
> {
    match last {
        Option::None => full_rows(new, new.len() as int),
        Option::Some(old) => if old.len() != new.len() {
            full_rows(new, new.len() as int)
        } else {
            changed_rows(old, new, new.len() as int)
        },
    }
}

/// The previously displayed frame, owned by the render loop: absent at
/// loop start, replaced after every planned draw.
pub struct RenderState {
    last: Option<Vec<String>>,
}

impl RenderState {
    /// The previous frame this state remembers, if any.
    pub closed spec fn view(&self) -> Option<Seq<Seq<char>>> {
        match self.last {
            Option::None => Option::None,
            Option::Some(f) => Option::Some(f.deep_view()),
        }
    }

    /// A fresh render state remembering no frame.
    pub fn new() -> (s: Self)
        ensures
            s@ == Option::<Seq<Seq<char>>>::None,
    {
        RenderState { last: None }
    }

    /// Plans the terminal updates that draw `frame` over the remembered
    /// frame — the whole frame when none is remembered or the line count
    /// changed, else exactly the changed lines — and remembers `frame`.
    pub fn plan(&mut self, frame: &Vec<String>) -> (updates: Vec<LineUpdate>)
        ensures
            final(self)@ == Option::Some(frame.deep_view()),
            updates@.map_values(|u: LineUpdate| update_view(u)) == spec_plan(
                old(self)@,
                frame.deep_view(),
            ),
    {
        let ghost fv = frame.deep_view();
        proof {
            assert(fv.len() == frame@.len());
            assert(forall|i: int| 0 <= i < fv.len() ==> fv[i] == frame@[i]@);
        }
        let updates: Vec<LineUpdate> = match &self.last {
            None => plan_full(frame),
            Some(prev) => {
                if prev.len() != frame.len() {
                    plan_full(frame)
                } else {
                    plan_diff(prev, frame)
                }
            },
        };
        let mut remembered: Vec<String> = Vec::new();
        let mut i: usize = 0;
        while i < frame.len()
            invariant
                0 <= i <= frame@.len(),
                fv == frame.deep_view(),
                fv.len() == frame@.len(),
                forall|k: int| 0 <= k < fv.len() ==> fv[k] == frame@[k]@,
                remembered@.len() == i,
                forall|k: int| 0 <= k < i ==> remembered@[k]@ == frame@[k]@,
            decreases frame@.len() - i,
        {
            let line = frame[i].clone();
            remembered.push(line);
            i = i + 1;
        }
        self.last = Some(remembered);
        proof {
            assert(remembered.deep_view() =~= fv);
        }
        updates
    }
}

/// Plans a full repaint: every line of `frame`, in order, without a
/// clear.
fn plan_full(frame: &Vec<String>) -> (updates: Vec<LineUpdate>)
    ensures
        updates@.map_values(|u: LineUpdate| update_view(u)) == full_rows(
            frame.deep_view(),
            frame.deep_view().len() as int,
        ),
{
    let ghost fv = frame.deep_view();
    proof {
        assert(fv.len() == frame@.len());
        assert(forall|k: int| 0 <= k < fv.len() ==> fv[k] == frame@[k]@);
    }
    let mut updates: Vec<LineUpdate> = Vec::new();
    let mut i: usize = 0;
    while i < frame.len()
        invariant
            0 <= i <= frame@.len(),
            fv == frame.deep_view(),
            fv.len() == frame@.len(),
            forall|k: int| 0 <= k < fv.len() ==> fv[k] == frame@[k]@,
            updates@.map_values(|u: LineUpdate| update_view(u)) == full_rows(fv, i as int),
        decreases frame@.len() - i,
    {
        let text = frame[i].clone();
        updates.push(LineUpdate { row: i, clear_first: false, text });
        proof {
            let m = updates@.map_values(|u: LineUpdate| update_view(u));
            assert(m =~= m.drop_last().push(update_view(updates@.last())));
            assert(m.drop_last() =~= updates@.drop_last().map_values(
                |u: LineUpdate| update_view(u),
            ));
        }
        i = i + 1;
    }
    updates
}

/// Plans a diff repaint between frames of equal line count: exactly the
/// changed lines, in order, each with a clear.
fn plan_diff(prev: &Vec<String>, frame: &Vec<String>) -> (updates: Vec<LineUpdate>)
    requires
        prev@.len() == frame@.len(),
    ensures
        updates@.map_values(|u: LineUpdate| update_view(u)) == changed_rows(
            prev.deep_view(),
            frame.deep_view(),
            frame.deep_view().len() as int,
        ),
{
    let ghost fv = frame.deep_view();
    let ghost pv = prev.deep_view();
    proof {
        assert(fv.len() == frame@.len());
        assert(forall|k: int| 0 <= k < fv.len() ==> fv[k] == frame@[k]@);
        assert(pv.len() == prev@.len());
        assert(forall|k: int| 0 <= k < pv.len() ==> pv[k] == prev@[k]@);
    }
    let mut updates: Vec<LineUpdate> = Vec::new();
    let mut i: usize = 0;
    while i < frame.len()
        invariant
            0 <= i <= frame@.len(),
            fv == frame.deep_view(),
            fv.len() == frame@.len(),
            forall|k: int| 0 <= k < fv.len() ==> fv[k] == frame@[k]@,
            pv == prev.deep_view(),
            pv.len() == prev@.len(),
            prev@.len() == frame@.len(),
            forall|k: int| 0 <= k < pv.len() ==> pv[k] == prev@[k]@,
            updates@.map_values(|u: LineUpdate| update_view(u)) == changed_rows(pv, fv, i as int),
        decreases frame@.len() - i,
    {
        if !strings_equal(&prev[i], &frame[i]) {
            let text = frame[i].clone();
            updates.push(LineUpdate { row: i, clear_first: true, text });
            proof {
                let m = updates@.map_values(|u: LineUpdate| update_view(u));
                assert(m =~= m.drop_last().push(update_view(updates@.last())));
                assert(m.drop_last() =~= updates@.drop_last().map_values(
                    |u: LineUpdate| update_view(u),
                ));
            }
        }
        i = i + 1;
    }
    updates
}

/// String equality by content.
fn strings_equal(a: &String, b: &String) -> (r: bool)
    ensures
        r == (a@ == b@),
{
    a.eq(b)
}

/// Drawing the very same frame again plans no update at all: the second
/// of two identical draws writes nothing.
pub proof fn lemma_plan_idempotent(f: Seq<Seq<char>>)
    ensures
        spec_plan(Option::Some(f), f) == Seq::<(int, bool, Seq<char>)>::empty(),
{
    lemma_changed_rows_same(f, f.len() as int);
}

proof fn lemma_changed_rows_same(f: Seq<Seq<char>>, n: int)
    ensures
        changed_rows(f, f, n) == Seq::<(int, bool, Seq<char>)>::empty(),
    decreases n,
{
    if n > 0 {
        lemma_changed_rows_same(f, n - 1);
    }
}

/// In a diff plan between frames of equal line count, row `i` is written
/// exactly when its content changed.
pub proof fn lemma_plan_writes_changed_rows(old: Seq<Seq<char>>, new: Seq<Seq<char>>, i: int)
    requires
        old.len() == new.len(),
        0 <= i < new.len(),
    ensures
        (exists|j: int|
            0 <= j < spec_plan(Option::Some(old), new).len() && spec_plan(
                Option::Some(old),
                new,
            )[j] == (i, true, new[i])) <==> old[i] != new[i],
        forall|j: int|
            0 <= j < spec_plan(Option::Some(old), new).len() ==> (#[trigger] spec_plan(
                Option::Some(old),
                new,
            )[j]).0 != i || spec_plan(Option::Some(old), new)[j] == (i, true, new[i]),
{
    let n = new.len() as int;
    lemma_changed_rows_membership(old, new, i, n);
    let plan = spec_plan(Option::Some(old), new);
    assert(plan == changed_rows(old, new, n));
    if old[i] != new[i] {
        let j = choose|j: int|
            0 <= j < changed_rows(old, new, n).len() && changed_rows(old, new, n)[j] == (
            i,
            true,
            new[i],
            );
        assert(0 <= j < plan.len() && plan[j] == (i, true, new[i]));
    }
}

proof fn lemma_changed_rows_membership(old: Seq<Seq<char>>, new: Seq<Seq<char>>, i: int, n: int)
    requires
        0 <= i < n,
    ensures
        (exists|j: int|
            0 <= j < changed_rows(old, new, n).len() && changed_rows(old, new, n)[j] == (
            i,
            true,
            new[i],
            )) <==> old[i] != new[i],
        forall|j: int|
            0 <= j < changed_rows(old, new, n).len() ==> (#[trigger] changed_rows(old, new, n)[j]).0
                != i || changed_rows(old, new, n)[j] == (i, true, new[i]),
    decreases n,
{
    let cur = changed_rows(old, new, n);
    let pre = changed_rows(old, new, n - 1);
    if i == n - 1 {
        lemma_changed_rows_high(old, new, i, n - 1);
        if old[i] != new[i] {
            assert(cur[cur.len() - 1] == (i, true, new[i]));
        }
    } else {
        lemma_changed_rows_membership(old, new, i, n - 1);
        if old[i] != new[i] {
            let j = choose|j: int| 0 <= j < pre.len() && pre[j] == (i, true, new[i]);
            assert(cur[j] == (i, true, new[i]));
        } else {
            if old[n - 1] == new[n - 1] {
            } else {
                assert(forall|j: int| 0 <= j < pre.len() ==> cur[j] == #[trigger] pre[j]);
            }
        }
    }
}

proof fn lemma_changed_rows_high(old: Seq<Seq<char>>, new: Seq<Seq<char>>, i: int, n: int)
    requires
        i >= n,
    ensures
        forall|j: int|
            0 <= j < changed_rows(old, new, n).len() ==> 0 <= (#[trigger] changed_rows(
                old,
                new,
                n,
            )[j]).0 < n,
    decreases n,
{
    if n > 0 {
        lemma_changed_rows_high(old, new, i, n - 1);
        let cur = changed_rows(old, new, n);
        let pre = changed_rows(old, new, n - 1);
        if old[n - 1] != new[n - 1] {
            assert(forall|j: int| 0 <= j < pre.len() ==> cur[j] == #[trigger] pre[j]);
            assert(cur[cur.len() - 1].0 == n - 1);
        }
    }
}

/// Between two renderings of equal-length display strings that differ in
/// exactly one character, the diff plan writes exactly the rows on which
/// the changed character's glyph lines differ, and no other.
pub proof fn lemma_plan_single_char_change(s1: Seq<char>, s2: Seq<char>, k: int, i: int)
    requires
        s1.len() == s2.len(),
        s1.len() > 0,
        0 <= k < s1.len(),
        forall|j: int| 0 <= j < s1.len() && j != k ==> s1[j] == s2[j],
        0 <= i < crate::glyphs::spec_render(s2).len(),
    ensures
        ({
            let plan = spec_plan(
                Option::Some(crate::glyphs::spec_render(s1)),
                crate::glyphs::spec_render(s2),
            );
            (exists|j: int|
                0 <= j < plan.len() && plan[j] == (i, true, crate::glyphs::spec_render(s2)[i]))
                <==> crate::glyphs::spec_glyph_line(s1[k], i) != crate::glyphs::spec_glyph_line(
                s2[k],
                i,
            )
        }),
{
    let f1 = crate::glyphs::spec_render(s1);
    let f2 = crate::glyphs::spec_render(s2);
    assert(f1.len() == crate::glyphs::GLYPH_HEIGHT && f2.len() == crate::glyphs::GLYPH_HEIGHT);
    assert(f1[i] == crate::glyphs::spec_render_row(s1, i));
    assert(f2[i] == crate::glyphs::spec_render_row(s2, i));
    lemma_plan_writes_changed_rows(f1, f2, i);
    crate::glyphs::lemma_render_single_change(s1, s2, k, i);
}

/// Centers a frame of the given size in a terminal of the given size:
/// the anchor column and row, clamped to the origin when the terminal is
/// smaller than the frame.
pub fn center_position(term_width: u16, term_height: u16, frame_width: u16, frame_height: u16) -> (pos: (
    u16,
    u16,
))
    ensures
        pos.0 == (if term_width >= frame_width {
            (term_width - frame_width) / 2
        } else {
            0
        }),
        pos.1 == (if term_height >= frame_height {
            (term_height - frame_height) / 2
        } else {
            0
        }),
{
    let x = term_width.saturating_sub(frame_width) / 2;
    let y = term_height.saturating_sub(frame_height) / 2;
    (x, y)
}

} // verus!
