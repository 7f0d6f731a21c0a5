use clockit::frame::{center_position, RenderState};
use clockit::glyphs::{combine_digits, get_colon, get_digit, get_dot, render_time};

#[test]
fn digit_glyphs_are_five_by_five() {
    for d in 0..10u8 {
        let glyph = get_digit(d);
        assert_eq!(glyph.len(), 5);
        for line in &glyph {
            assert_eq!(line.len(), 5);
        }
    }
}

#[test]
fn unknown_digit_is_blank() {
    let glyph = get_digit(11);
    assert_eq!(glyph, vec!["     "; 5]);
}

#[test]
fn colon_and_dot_glyphs() {
    assert_eq!(get_colon(), vec!["     ", "  o  ", "     ", "  o  ", "     "]);
    assert_eq!(get_dot(), vec!["     ", "     ", "     ", "     ", "  o  "]);
}

#[test]
fn combine_concatenates_columns() {
    let combined = combine_digits(vec![get_digit(1), get_colon()]);
    assert_eq!(
        combined,
        vec![
            "  .       ",
            "  |    o  ",
            "  |       ",
            "  |    o  ",
            "  |       ",
        ]
    );
}

#[test]
fn combine_of_nothing_is_empty() {
    assert_eq!(combine_digits(vec![]), Vec::<String>::new());
}

#[test]
fn render_of_single_digit_matches_its_glyph() {
    let frame = render_time("1");
    let glyph = get_digit(1);
    assert_eq!(frame.len(), 5);
    for i in 0..5 {
        assert_eq!(frame[i], glyph[i]);
    }
}

#[test]
fn render_is_rectangular() {
    let frame = render_time("12:34");
    assert_eq!(frame.len(), 5);
    for line in &frame {
        assert_eq!(line.len(), 25);
    }
}

#[test]
fn render_of_empty_string_is_empty() {
    assert_eq!(render_time(""), Vec::<String>::new());
}

#[test]
fn render_maps_unknown_characters_to_blanks() {
    let frame = render_time(" ");
    assert_eq!(frame, vec!["     "; 5]);
}

#[test]
fn first_draw_paints_the_whole_frame() {
    let mut state = RenderState::new();
    let frame = render_time("1:15");
    let updates = state.plan(&frame);
    assert_eq!(updates.len(), 5);
    for (i, update) in updates.iter().enumerate() {
        assert_eq!(update.row, i);
        assert!(!update.clear_first);
        assert_eq!(update.text, frame[i]);
    }
}

#[test]
fn drawing_the_same_frame_twice_writes_nothing() {
    let mut state = RenderState::new();
    let frame = render_time("1:15");
    state.plan(&frame);
    let second = state.plan(&frame);
    assert!(second.is_empty());
}

#[test]
fn one_changed_character_rewrites_only_its_changed_glyph_lines() {
    // '5' and '6' share glyph lines 0, 1 and 4 and differ on lines 2 and
    // 3, so changing the final digit touches exactly those two rows.
    let mut state = RenderState::new();
    let before = render_time("1:15");
    let after = render_time("1:16");
    state.plan(&before);
    let updates = state.plan(&after);
    let rows: Vec<usize> = updates.iter().map(|u| u.row).collect();
    assert_eq!(rows, vec![2, 3]);
    for update in &updates {
        assert!(update.clear_first);
        assert_eq!(update.text, after[update.row]);
    }
}

#[test]
fn line_count_change_forces_a_full_repaint() {
    let mut state = RenderState::new();
    let frame = render_time("1:15");
    state.plan(&frame);
    let empty: Vec<String> = Vec::new();
    let updates = state.plan(&empty);
    assert!(updates.is_empty());
    let updates = state.plan(&frame);
    assert_eq!(updates.len(), 5);
    assert!(updates.iter().all(|u| !u.clear_first));
}

#[test]
fn centering_splits_the_leftover_space() {
    assert_eq!(center_position(80, 24, 25, 5), (27, 9));
    assert_eq!(center_position(25, 5, 25, 5), (0, 0));
}

#[test]
fn centering_clamps_to_origin_when_terminal_is_small() {
    assert_eq!(center_position(10, 3, 25, 5), (0, 0));
}
