use kilo_rs::editor::Editor;
use kilo_rs::keys::EditorKey;

fn make_editor(lines: &[&[u8]], screenrows: usize, screencols: usize) -> Editor {
    let mut ed = Editor::new(screenrows, screencols);
    for line in lines {
        ed.editor_append_row(line.to_vec());
    }
    ed
}

#[test]
fn arrows_move_within_document() {
    let mut ed = make_editor(&[b"ab", b"cd"], 10, 40);
    ed.editor_move_cursor(EditorKey::ArrowRight);
    assert_eq!((ed.cx, ed.cy), (1, 0));
    ed.editor_move_cursor(EditorKey::ArrowDown);
    assert_eq!((ed.cx, ed.cy), (1, 1));
    ed.editor_move_cursor(EditorKey::ArrowLeft);
    assert_eq!((ed.cx, ed.cy), (0, 1));
    ed.editor_move_cursor(EditorKey::ArrowUp);
    assert_eq!((ed.cx, ed.cy), (0, 0));
}

#[test]
fn arrow_right_wraps_to_next_row() {
    let mut ed = make_editor(&[b"ab", b"cd"], 10, 40);
    ed.editor_move_cursor(EditorKey::ArrowRight);
    ed.editor_move_cursor(EditorKey::ArrowRight);
    assert_eq!((ed.cx, ed.cy), (2, 0));
    ed.editor_move_cursor(EditorKey::ArrowRight);
    assert_eq!((ed.cx, ed.cy), (0, 1));
}

#[test]
fn arrow_left_at_origin_is_a_no_op() {
    let mut ed = make_editor(&[b"ab", b"cd"], 10, 40);
    ed.editor_move_cursor(EditorKey::ArrowLeft);
    assert_eq!((ed.cx, ed.cy), (0, 0));
}

#[test]
fn arrow_left_wraps_to_end_of_previous_row() {
    let mut ed = make_editor(&[b"abc", b"d"], 10, 40);
    ed.editor_move_cursor(EditorKey::ArrowDown);
    ed.editor_move_cursor(EditorKey::ArrowLeft);
    assert_eq!((ed.cx, ed.cy), (3, 0));
}

#[test]
fn vertical_motion_clamps_column() {
    let mut ed = make_editor(&[b"abcdef", b"xy"], 10, 40);
    ed.editor_process_key(EditorKey::EndKey);
    assert_eq!((ed.cx, ed.cy), (6, 0));
    ed.editor_move_cursor(EditorKey::ArrowDown);
    assert_eq!((ed.cx, ed.cy), (2, 1));
}

#[test]
fn end_key_past_last_row_keeps_column_at_zero() {
    let mut ed = make_editor(&[b"abc"], 10, 40);
    ed.editor_process_key(EditorKey::ArrowDown);
    assert_eq!((ed.cx, ed.cy), (0, 1));
    ed.editor_process_key(EditorKey::ArrowDown);
    assert_eq!((ed.cx, ed.cy), (0, 1));
    ed.editor_process_key(EditorKey::EndKey);
    assert_eq!((ed.cx, ed.cy), (0, 1));
}

#[test]
fn three_line_file_down_down_end() {
    let mut ed = make_editor(&[b"one", b"two", b"three"], 10, 40);
    assert!(ed.editor_process_key(EditorKey::ArrowDown));
    assert!(ed.editor_process_key(EditorKey::ArrowDown));
    assert!(ed.editor_process_key(EditorKey::EndKey));
    assert_eq!(ed.cy, 2);
    assert_eq!(ed.cx, 5);
}

#[test]
fn quit_key_stops_the_loop_and_nothing_else_does() {
    let mut ed = make_editor(&[b"one"], 10, 40);
    assert!(ed.editor_process_key(EditorKey::Char(b'x')));
    assert!(ed.editor_process_key(EditorKey::HomeKey));
    assert!(!ed.editor_process_key(EditorKey::Char(17)));
    assert_eq!((ed.cx, ed.cy), (0, 0));
}

#[test]
fn home_key_returns_to_column_zero() {
    let mut ed = make_editor(&[b"abcdef"], 10, 40);
    ed.editor_process_key(EditorKey::EndKey);
    assert_eq!(ed.cx, 6);
    ed.editor_process_key(EditorKey::HomeKey);
    assert_eq!(ed.cx, 0);
}

#[test]
fn page_down_and_up_move_a_screen_at_a_time() {
    let lines: Vec<Vec<u8>> = (0..9).map(|i| vec![b'a' + i as u8]).collect();
    let refs: Vec<&[u8]> = lines.iter().map(|l| l.as_slice()).collect();
    let mut ed = make_editor(&refs, 3, 40);
    ed.editor_process_key(EditorKey::PageDown);
    assert_eq!(ed.cy, 5);
    ed.editor_scroll();
    assert_eq!(ed.rowoff, 3);
    ed.editor_process_key(EditorKey::PageDown);
    assert_eq!(ed.cy, 8);
    ed.editor_process_key(EditorKey::PageUp);
    assert_eq!(ed.cy, 0);
}

#[test]
fn scroll_keeps_cursor_inside_viewport() {
    let lines: Vec<Vec<u8>> = (0..20).map(|_| b"0123456789".to_vec()).collect();
    let refs: Vec<&[u8]> = lines.iter().map(|l| l.as_slice()).collect();
    let mut ed = make_editor(&refs, 4, 5);
    for _ in 0..7 {
        ed.editor_process_key(EditorKey::ArrowDown);
        ed.editor_scroll();
        assert!(ed.rowoff <= ed.cy && ed.cy < ed.rowoff + ed.screenrows);
        assert!(ed.coloff <= ed.rx && ed.rx < ed.coloff + ed.screencols);
    }
    assert_eq!(ed.rowoff, 4);
    ed.editor_process_key(EditorKey::EndKey);
    ed.editor_scroll();
    assert_eq!(ed.rx, 10);
    assert_eq!(ed.coloff, 6);
    assert!(ed.coloff <= ed.rx && ed.rx < ed.coloff + ed.screencols);
    ed.editor_process_key(EditorKey::HomeKey);
    ed.editor_scroll();
    assert_eq!(ed.coloff, 0);
}

#[test]
fn scroll_follows_cursor_back_up() {
    let lines: Vec<Vec<u8>> = (0..10).map(|_| b"x".to_vec()).collect();
    let refs: Vec<&[u8]> = lines.iter().map(|l| l.as_slice()).collect();
    let mut ed = make_editor(&refs, 3, 10);
    for _ in 0..8 {
        ed.editor_process_key(EditorKey::ArrowDown);
    }
    ed.editor_scroll();
    assert_eq!(ed.rowoff, 6);
    for _ in 0..8 {
        ed.editor_process_key(EditorKey::ArrowUp);
    }
    ed.editor_scroll();
    assert_eq!(ed.rowoff, 0);
}

#[test]
fn tab_row_scrolls_by_render_column() {
    let mut ed = make_editor(&[b"a\tb"], 4, 5);
    ed.editor_process_key(EditorKey::EndKey);
    ed.editor_scroll();
    assert_eq!(ed.rx, 9);
    assert_eq!(ed.coloff, 5);
}

#[test]
fn status_message_is_recorded() {
    let mut ed = make_editor(&[], 4, 20);
    ed.editor_set_status_message(b"HELP: Ctrl-Q = quit".to_vec(), 42);
    assert_eq!(ed.statusmsg, b"HELP: Ctrl-Q = quit".to_vec());
    assert_eq!(ed.statusmsg_time, 42);
}

#[test]
fn filename_is_recorded() {
    let mut ed = make_editor(&[], 4, 20);
    ed.set_filename(b"notes.txt".to_vec());
    assert_eq!(ed.filename, b"notes.txt".to_vec());
}
