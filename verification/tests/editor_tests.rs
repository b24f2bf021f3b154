use wakatiwai_fs::editor::Editor;

fn editor(text: &str, lines: usize, columns: usize) -> Editor {
    Editor::new(String::from("test.cfg"), &text.as_bytes().to_vec(), lines, columns)
}

#[test]
fn buffer_splits_into_newline_terminated_lines() {
    let e = editor("one\ntwo\nthree", 10, 40);
    assert_eq!(e.edit_buffer.len(), 3);
    assert_eq!(e.edit_buffer[0], b"one\n");
    assert_eq!(e.edit_buffer[1], b"two\n");
    assert_eq!(e.edit_buffer[2], b"three");
    assert_eq!(e.file_buffer, b"one\ntwo\nthree");
    assert_eq!(e.line, 1);
    assert_eq!(e.column, 1);
}

#[test]
fn save_rebuilds_the_file_buffer() {
    let mut e = editor("ab\ncd", 10, 40);
    e.edit_buffer[0][0] = b'x';
    e.save_edit_buffer();
    assert_eq!(e.file_buffer, b"xb\ncd");
}

#[test]
fn cursor_moves_stop_at_the_edges() {
    let mut e = editor("one\ntwo\n", 10, 40);
    assert!(!e.move_cursor_up());
    assert!(!e.move_cursor_left());
    assert!(e.move_cursor_down());
    assert_eq!(e.line, 2);
    assert!(!e.move_cursor_down());
    assert!(e.move_cursor_up());
    assert_eq!(e.line, 1);
}

#[test]
fn moving_up_onto_a_shorter_line_clamps_the_column() {
    let mut e = editor("ab\nlonger line\n", 10, 40);
    assert!(e.move_cursor_down());
    e.move_cursor_to_end();
    assert_eq!(e.column, 12);
    assert!(e.move_cursor_up());
    assert_eq!(e.line, 1);
    assert_eq!(e.column, 3); // "ab\n" has three bytes
}

#[test]
fn left_and_right_wrap_between_lines() {
    let mut e = editor("ab\ncd", 10, 40);
    e.move_cursor_to_end();
    assert_eq!(e.column, 3);
    assert!(e.move_cursor_right());
    assert_eq!((e.line, e.column), (2, 1));
    assert!(e.move_cursor_left());
    assert_eq!((e.line, e.column), (1, 3));
}

#[test]
fn scrolling_follows_the_cursor() {
    let text = "1\n2\n3\n4\n5\n6\n7\n8\n9\n";
    let mut e = editor(text, 3, 10);
    for _ in 0..5 {
        e.move_cursor_down();
    }
    assert_eq!(e.line, 6);
    assert!(e.top_line > 1);
    assert!(e.top_line <= e.line);
    // Moving back above the viewport anchors it to the cursor line.
    let redraw = e.move_cursor(1, 1);
    assert!(redraw);
    assert_eq!(e.top_line, 1);
}

#[test]
fn display_shows_the_viewport_slice() {
    let mut e = editor("0123456789abcdef\nabc\n", 2, 4);
    assert_eq!(e.display_line(1), "0123");
    e.move_cursor(1, 9);
    assert_eq!(e.left_column, 6);
    assert_eq!(e.display_line(1), "5678");
    let frame = e.display_frame();
    assert_eq!(frame.len(), 2);
    assert_eq!(frame[0], "5678");
    assert_eq!(frame[1], ""); // "abc\n" has no column 6
}

#[test]
fn banners_carry_name_state_and_position() {
    let mut e = editor("hello\n", 5, 20);
    assert_eq!(e.draw_top_banner(), " test.cfg");
    e.unsaved_changes = true;
    assert_eq!(e.draw_top_banner(), " test.cfg * ");
    e.move_cursor(1, 4);
    assert_eq!(e.draw_bottom_banner(), " F1: Save - F2: Exit (1,4)");
}

#[test]
fn cursor_position_is_viewport_relative() {
    let mut e = editor("aaaa\nbbbb\ncccc\n", 2, 10);
    assert_eq!(e.cursor_position(), (0, 1));
    e.move_cursor_down();
    assert_eq!(e.cursor_position(), (0, 2));
}

#[test]
fn bottom_banner_renders_multi_digit_positions() {
    let text = "x\n".repeat(30);
    let mut e = editor(&text, 4, 10);
    for _ in 0..11 {
        e.move_cursor_down();
    }
    assert_eq!(e.line, 12);
    assert_eq!(e.draw_bottom_banner(), " F1: Save - F2: Exit (12,1)");
}
