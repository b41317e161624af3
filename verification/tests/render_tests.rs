use kilo_rs::editor::Editor;
use kilo_rs::keys::EditorKey;
use kilo_rs::render::clear_screen_bytes;

fn make_editor(lines: &[&[u8]], screenrows: usize, screencols: usize) -> Editor {
    let mut ed = Editor::new(screenrows, screencols);
    for line in lines {
        ed.editor_append_row(line.to_vec());
    }
    ed
}

#[test]
fn frame_for_a_small_document() {
    let mut ed = make_editor(&[b"hi"], 3, 10);
    let frame = ed.editor_refresh_frame(0);
    let expected = b"\x1b[?25l\x1b[H\
                     hi\x1b[K\r\n\
                     ~\x1b[K\r\n\
                     ~\x1b[K\r\n\
                     \x1b[7m - 1 lines\x1b[m\r\n\
                     \x1b[K\
                     \x1b[1;1H\x1b[?25h";
    assert_eq!(frame, expected.to_vec());
}

#[test]
fn frame_shows_welcome_banner_when_empty() {
    let mut ed = make_editor(&[], 3, 30);
    let frame = ed.editor_refresh_frame(6000);
    let expected = b"\x1b[?25l\x1b[H\
                     ~\x1b[K\r\n\
                     ~Kilo editor -- version 0.1.0\x1b[K\r\n\
                     ~\x1b[K\r\n\
                     \x1b[7m - 0 lines                 1/0\x1b[m\r\n\
                     \x1b[K\
                     \x1b[1;1H\x1b[?25h";
    assert_eq!(frame, expected.to_vec());
}

#[test]
fn frame_slices_long_rows_to_the_viewport() {
    let mut ed = make_editor(&[b"0123456789abcdef"], 2, 4);
    ed.editor_process_key(EditorKey::EndKey);
    let frame = ed.editor_refresh_frame(6000);
    let expected = b"\x1b[?25l\x1b[H\
                     def\x1b[K\r\n\
                     ~\x1b[K\r\n\
                     \x1b[7m - 1\x1b[m\r\n\
                     \x1b[K\
                     \x1b[1;4H\x1b[?25h";
    assert_eq!(frame, expected.to_vec());
}

#[test]
fn row_shorter_than_column_offset_draws_empty() {
    let mut ed = make_editor(&[b"abcdefghij", b"x"], 3, 4);
    ed.editor_process_key(EditorKey::EndKey);
    let frame = ed.editor_refresh_frame(6000);
    let expected = b"\x1b[?25l\x1b[H\
                     hij\x1b[K\r\n\
                     \x1b[K\r\n\
                     ~\x1b[K\r\n\
                     \x1b[7m - 2\x1b[m\r\n\
                     \x1b[K\
                     \x1b[1;4H\x1b[?25h";
    assert_eq!(frame, expected.to_vec());
}

#[test]
fn status_bar_truncates_long_filenames() {
    let mut ed = make_editor(&[b"x"], 2, 30);
    ed.set_filename(b"a_very_long_file_name_indeed.txt".to_vec());
    let mut buf = Vec::new();
    ed.editor_draw_status_bar(&mut buf);
    let expected = b"\x1b[7ma_very_long_file_nam - 1 lines\x1b[m\r\n";
    assert_eq!(buf, expected.to_vec());
}

#[test]
fn status_bar_right_side_needs_exact_fit() {
    let mut ed = make_editor(&[b"x", b"y"], 2, 16);
    ed.set_filename(b"f".to_vec());
    let mut buf = Vec::new();
    ed.editor_draw_status_bar(&mut buf);
    let expected = b"\x1b[7mf - 2 lines  1/2\x1b[m\r\n";
    assert_eq!(buf, expected.to_vec());
}

#[test]
fn message_bar_hides_stale_messages() {
    let mut ed = make_editor(&[], 2, 40);
    ed.editor_set_status_message(b"hello".to_vec(), 1000);
    let mut fresh = Vec::new();
    ed.editor_draw_message_bar(&mut fresh, 1000);
    assert_eq!(fresh, b"\x1b[Khello".to_vec());
    let mut late = Vec::new();
    ed.editor_draw_message_bar(&mut late, 5999);
    assert_eq!(late, b"\x1b[Khello".to_vec());
    let mut stale = Vec::new();
    ed.editor_draw_message_bar(&mut stale, 6000);
    assert_eq!(stale, b"\x1b[K".to_vec());
}

#[test]
fn message_bar_truncates_to_screen_width() {
    let mut ed = make_editor(&[], 2, 4);
    ed.editor_set_status_message(b"abcdefgh".to_vec(), 0);
    let mut buf = Vec::new();
    ed.editor_draw_message_bar(&mut buf, 0);
    assert_eq!(buf, b"\x1b[Kabcd".to_vec());
}

#[test]
fn clear_screen_bytes_clear_and_home() {
    assert_eq!(clear_screen_bytes(), b"\x1b[2J\x1b[H".to_vec());
}
