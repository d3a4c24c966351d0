use rshell::image::surface_bytes;
use rshell::keys::{
    key_press, modifiers_of, shortcut, KeyCode, KeyModifiers, PaneAction, ALT_MASK, CONTROL_MASK,
    KEY_A_UPPER, KEY_B_UPPER, KEY_CAPS_LOCK, KEY_C_UPPER, KEY_F1, KEY_F24, KEY_INSERT,
    KEY_ISO_LEFT_TAB, KEY_KP_0, KEY_KP_9, KEY_KP_DELETE, KEY_KP_ENTER, KEY_L_UPPER, KEY_RETURN,
    KEY_SUPER_R, KEY_V_UPPER, SHIFT_MASK, SUPER_MASK,
};
use rshell::screen::{
    cell_colors, char_display_width, cursor_mark, is_drawn, selected_lines, selected_span,
    selection_text, visible_lines, visible_text, CellCoord, CursorMark, CursorShape,
    PaneSelection, ScreenCell, TerminalScreen,
};

fn at(col: usize, row: usize) -> CellCoord {
    CellCoord { col, row }
}

fn cells(line: &str) -> Vec<ScreenCell> {
    line.chars()
        .enumerate()
        .map(|(index, c)| ScreenCell { index, text: c.to_string() })
        .collect()
}

fn screen(lines: &[&str], physical_rows: usize, x: usize, y: i64) -> TerminalScreen {
    TerminalScreen {
        lines: lines.iter().map(|l| l.to_string()).collect(),
        physical_rows,
        cursor_x: x,
        cursor_y: y,
    }
}

#[test]
fn widths_of_characters() {
    assert_eq!(char_display_width('a'), 1);
    assert_eq!(char_display_width(' '), 1);
    assert_eq!(char_display_width('\n'), 0);
    assert_eq!(char_display_width('\u{85}'), 0);
    assert_eq!(char_display_width('漢'), 2);
    assert_eq!(char_display_width('\u{301}'), 0);
}

#[test]
fn text_of_the_last_lines() {
    let s = screen(&["one  ", "two\t", "", "four"], 2, 0, 0);
    assert_eq!(s.screen_text(10), "one\ntwo\n\nfour");
    assert_eq!(s.screen_text(2), "\nfour");
    assert_eq!(s.screen_text(0), "");
    assert_eq!(screen(&[], 2, 0, 0).screen_text(5), "");
}

#[test]
fn cursor_in_the_text() {
    let s = screen(&["one", "two  ", "three"], 2, 2, 1);
    assert_eq!(s.screen_text_with_cursor(10), ("one\ntwo\nthree".into(), Some(10)));
    let s = screen(&["one", "two  ", "three"], 2, 9, 0);
    assert_eq!(s.screen_text_with_cursor(10), ("one\ntwo\nthree".into(), Some(7)));
    assert_eq!(s.screen_text_with_cursor(1), ("three".into(), None));
    let s = screen(&["漢字x"], 1, 3, 0);
    assert_eq!(s.screen_text_with_cursor(5).1, Some(2));
    let s = screen(&["x"], 1, 0, 7);
    assert_eq!(s.screen_text_with_cursor(5).1, None);
    let s = screen(&["x"], 1, 0, -1);
    assert_eq!(s.screen_text_with_cursor(5).1, None);
}

#[test]
fn selection_ends_are_in_reading_order() {
    let forward = PaneSelection { range: Some((at(5, 1), at(2, 2))) };
    let backward = PaneSelection { range: Some((at(2, 2), at(5, 1))) };
    assert_eq!(forward.normalized_selection(), Some((at(5, 1), at(2, 2))));
    assert_eq!(backward.normalized_selection(), Some((at(5, 1), at(2, 2))));
    let same_row = PaneSelection { range: Some((at(9, 1), at(2, 1))) };
    assert_eq!(same_row.normalized_selection(), Some((at(2, 1), at(9, 1))));
    assert_eq!(PaneSelection::default().normalized_selection(), None);
}

#[test]
fn dragging_selects() {
    let mut s = PaneSelection { range: Some((at(0, 0), at(1, 1))) };
    s.begin_drag();
    assert_eq!(s.range, None);
    s.drag_to(at(1, 1), at(1, 1));
    assert_eq!(s.range, None);
    s.drag_to(at(1, 1), at(4, 1));
    assert_eq!(s.range, Some((at(1, 1), at(4, 1))));
    s.drag_to(at(1, 1), at(1, 1));
    assert_eq!(s.range, Some((at(1, 1), at(4, 1))));
    s.end_drag(at(1, 1), at(6, 2));
    assert_eq!(s.range, Some((at(1, 1), at(6, 2))));
    s.end_drag(at(1, 1), at(1, 1));
    assert_eq!(s.range, None);
    s.end_drag(at(1, 1), at(2, 2));
    assert_eq!(s.range, None);
}

#[test]
fn selecting_the_screen() {
    let mut s = PaneSelection::default();
    s.select_screen(24);
    assert_eq!(s.range, Some((CellCoord::default(), at(usize::MAX, 23))));
    s.select_screen(0);
    assert_eq!(s.range, Some((at(0, 0), at(usize::MAX, 0))));
}

#[test]
fn spans_of_rows() {
    assert_eq!(selected_span(at(2, 1), at(5, 1), 1, 80), (2, 4));
    assert_eq!(selected_span(at(2, 1), at(5, 3), 1, 80), (2, 78));
    assert_eq!(selected_span(at(2, 1), at(5, 3), 2, 80), (0, 80));
    assert_eq!(selected_span(at(2, 1), at(5, 3), 3, 80), (0, 6));
    assert_eq!(selected_span(at(90, 1), at(5, 3), 1, 80), (90, 0));
    assert_eq!(selected_span(at(0, 0), at(usize::MAX, 23), 23, 80), (0, 80));
    assert_eq!(selected_span(at(3, 0), at(usize::MAX, 0), 0, 80), (3, 77));
}

#[test]
fn lines_of_rows() {
    assert_eq!(selected_lines(100, 24, at(0, 2), at(0, 5)), (78, 82));
    assert_eq!(selected_lines(10, 24, at(0, 2), at(0, 5)), (2, 6));
    assert_eq!(visible_lines(100, 24), (76, 100));
    assert_eq!(visible_lines(10, 24), (0, 10));
}

#[test]
fn text_of_a_selection() {
    let lines = vec![cells("hello  "), cells("  wide   "), cells("world")];
    let s = PaneSelection { range: Some((at(2, 4), at(1, 6))) };
    assert_eq!(selection_text(&s, &lines), Some("llo\n  wide\nwo".into()));
    let s = PaneSelection { range: Some((at(3, 0), at(1, 0))) };
    assert_eq!(selection_text(&s, &vec![cells("hello")]), Some("ell".into()));
    let s = PaneSelection { range: Some((at(3, 0), at(3, 0))) };
    assert_eq!(selection_text(&s, &vec![cells("hello")]), None);
    assert_eq!(selection_text(&PaneSelection::default(), &lines), None);
    let mut s = PaneSelection::default();
    s.select_screen(2);
    assert_eq!(
        selection_text(&s, &vec![cells("hello  "), cells(" world ")]),
        Some("hello\n world".into())
    );
    // Rows that do not exist any more are left out.
    let s = PaneSelection { range: Some((at(0, 0), at(0, 9))) };
    assert_eq!(selection_text(&s, &vec![cells("a ")]), Some("a\n".into()));
}

#[test]
fn text_of_the_screen() {
    let lines = vec![cells("a b  "), cells("    "), cells("c")];
    assert_eq!(visible_text(&lines), "a b\n\nc\n");
    assert_eq!(visible_text(&Vec::new()), "");
}

#[test]
fn cells_that_are_drawn() {
    assert!(is_drawn(false, "x"));
    assert!(is_drawn(false, "  "));
    assert!(!is_drawn(false, " "));
    assert!(!is_drawn(false, ""));
    assert!(!is_drawn(true, "x"));
    assert_eq!(cell_colors(1, 2, false), (1, 2));
    assert_eq!(cell_colors(1, 2, true), (2, 1));
}

#[test]
fn marks_of_cursors() {
    assert_eq!(cursor_mark(false, 0, 5, CursorShape::Default), None);
    assert_eq!(cursor_mark(true, 5, 5, CursorShape::Default), None);
    assert_eq!(cursor_mark(true, 4, 5, CursorShape::Default), Some(CursorMark::Block));
    assert_eq!(cursor_mark(true, 0, 5, CursorShape::SteadyBlock), Some(CursorMark::Block));
    assert_eq!(
        cursor_mark(true, 0, 5, CursorShape::BlinkingUnderline),
        Some(CursorMark::Underline)
    );
    assert_eq!(cursor_mark(true, 0, 5, CursorShape::SteadyBar), Some(CursorMark::Bar));
}

#[test]
fn surface_of_an_image() {
    let rgba = vec![255, 128, 0, 255, 200, 100, 50, 128, 9, 9, 9];
    let bytes = surface_bytes(&rgba, 2, 2, 12);
    assert_eq!(bytes.len(), 24);
    assert_eq!(&bytes[0..4], &[0, 128, 255, 255]);
    assert_eq!(&bytes[4..8], &[25, 50, 100, 128]);
    assert!(bytes[8..].iter().all(|b| *b == 0));
    for chunk in bytes.chunks(4) {
        assert!(chunk[..3].iter().all(|c| *c <= chunk[3]));
    }
    assert!(surface_bytes(&rgba, 0, 0, 0).is_empty());
}

fn mods(shift: bool, ctrl: bool, alt: bool, logo: bool) -> KeyModifiers {
    KeyModifiers { shift, ctrl, alt, logo }
}

#[test]
fn modifiers_by_bit() {
    assert_eq!(modifiers_of(0), mods(false, false, false, false));
    assert_eq!(modifiers_of(SHIFT_MASK | 2), mods(true, false, false, false));
    assert_eq!(modifiers_of(CONTROL_MASK | ALT_MASK), mods(false, true, true, false));
    assert_eq!(modifiers_of(SUPER_MASK), mods(false, false, false, true));
}

#[test]
fn keys_and_their_meaning() {
    let code = |key: u32, c: Option<char>| key_press(key, c, 0).map(|(code, _)| code);
    assert_eq!(code(KEY_RETURN, Some('\r')), Some(KeyCode::Enter));
    assert_eq!(code(KEY_KP_ENTER, None), Some(KeyCode::Enter));
    assert_eq!(code(KEY_ISO_LEFT_TAB, None), Some(KeyCode::Tab));
    assert_eq!(code(KEY_KP_DELETE, None), Some(KeyCode::Delete));
    assert_eq!(code(KEY_F1, None), Some(KeyCode::Function(1)));
    assert_eq!(code(KEY_F24, None), Some(KeyCode::Function(24)));
    assert_eq!(code(KEY_KP_0, Some('0')), Some(KeyCode::Numpad(0)));
    assert_eq!(code(KEY_KP_9, Some('9')), Some(KeyCode::Numpad(9)));
    assert_eq!(code(KEY_CAPS_LOCK, Some('x')), None);
    assert_eq!(code(KEY_SUPER_R, None), None);
    assert_eq!(code(97, Some('a')), Some(KeyCode::Char('a')));
    assert_eq!(code(0xfe50, None), None);
    assert_eq!(
        key_press(97, Some('a'), CONTROL_MASK),
        Some((KeyCode::Char('a'), mods(false, true, false, false)))
    );
}

#[test]
fn shortcuts_of_panes() {
    let both = CONTROL_MASK | SHIFT_MASK;
    assert_eq!(shortcut(KEY_C_UPPER, both), Some(PaneAction::Copy));
    assert_eq!(shortcut(KEY_INSERT, CONTROL_MASK), Some(PaneAction::Copy));
    assert_eq!(shortcut(KEY_INSERT, both | ALT_MASK), Some(PaneAction::Copy));
    assert_eq!(shortcut(KEY_V_UPPER, both), Some(PaneAction::Paste));
    assert_eq!(shortcut(KEY_INSERT, SHIFT_MASK), Some(PaneAction::Paste));
    assert_eq!(shortcut(KEY_INSERT, ALT_MASK), Some(PaneAction::Paste));
    assert_eq!(shortcut(KEY_INSERT, ALT_MASK | SHIFT_MASK), Some(PaneAction::Paste));
    assert_eq!(shortcut(KEY_L_UPPER, both), Some(PaneAction::ClearScreen));
    assert_eq!(shortcut(KEY_B_UPPER, both), Some(PaneAction::ClearScrollback));
    assert_eq!(shortcut(KEY_A_UPPER, both), Some(PaneAction::ClearBoth));
    assert_eq!(shortcut(KEY_INSERT, 0), None);
    assert_eq!(shortcut(KEY_C_UPPER, CONTROL_MASK), None);
    assert_eq!(shortcut(99, both), None);
}

#[test]
fn bytes_of_actions() {
    assert_eq!(PaneAction::SendBreak.session_bytes(), b"\x03".to_vec());
    assert_eq!(PaneAction::ClearScreen.session_bytes(), b"\x0c".to_vec());
    assert_eq!(PaneAction::ClearBoth.session_bytes(), b"\x0c".to_vec());
    assert_eq!(PaneAction::ClearBoth.terminal_bytes(), b"\x1b[3J".to_vec());
    assert_eq!(PaneAction::ClearScrollback.terminal_bytes(), b"\x1b[3J".to_vec());
    assert_eq!(PaneAction::ResetCursor.terminal_bytes(), b"\x1b[?25h\x1b[0 q".to_vec());
    assert_eq!(PaneAction::ResetTerminal.terminal_bytes(), b"\x1bc".to_vec());
    assert!(PaneAction::Copy.session_bytes().is_empty());
    assert!(PaneAction::Copy.terminal_bytes().is_empty());
    let names: Vec<&str> = PaneAction::ALL.iter().map(|a| a.name()).collect();
    assert_eq!(names.len(), 17);
    assert_eq!(names[0], "copy");
    assert_eq!(names[16], "broadcast");
}
