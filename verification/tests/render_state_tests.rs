use sample_terminal::cells::CursorState;
use sample_terminal::terminal_buffer::TerminalBuffer;

fn lines(buffer: &TerminalBuffer) -> Vec<String> {
    let state = buffer.render_state();
    (0..buffer.rows())
        .map(|row| {
            (0..buffer.cols())
                .map(|col| state.char_at(row, col))
                .collect::<String>()
        })
        .collect()
}

#[test]
fn terminal_buffer_appends_plain_text() {
    let mut buffer = TerminalBuffer::new(5, 2);
    buffer.push_bytes(b"hello");

    assert_eq!(lines(&buffer), vec!["hello", "     "]);
}

#[test]
fn handles_backspace() {
    let mut buffer = TerminalBuffer::new(4, 1);
    buffer.push_bytes(b"abc\x08d");

    assert_eq!(lines(&buffer), vec!["abd "]);
}

#[test]
fn terminal_buffer_wraps_and_scrolls_visible_screen() {
    let mut buffer = TerminalBuffer::new(3, 2);
    buffer.push_bytes(b"abcdefg");

    assert_eq!(lines(&buffer), vec!["def", "g  "]);
}

#[test]
fn terminal_buffer_cursor_movement_sequences_work() {
    let mut buffer = TerminalBuffer::new(4, 3);
    buffer.push_bytes(b"ab\x1b[2;3H!\x1b[1A?");

    assert_eq!(lines(&buffer), vec!["ab ?", "  ! ", "    "]);
}

#[test]
fn terminal_buffer_erase_in_line_and_display_clear_expected_ranges() {
    let mut buffer = TerminalBuffer::new(4, 2);
    buffer.push_bytes(b"abcd\x1b[1;3H\x1b[0K");

    assert_eq!(lines(&buffer), vec!["ab  ", "    "]);

    let mut buffer = TerminalBuffer::new(4, 2);
    buffer.push_bytes(b"abcd\r\nzzzz\x1b[1;3H\x1b[0J");

    assert_eq!(lines(&buffer), vec!["ab  ", "    "]);
}

#[test]
fn terminal_buffer_insert_and_delete_chars_shift_cells() {
    let mut buffer = TerminalBuffer::new(5, 1);
    buffer.push_bytes(b"abcde\r\x1b[2C\x1b[@Z\x1b[2P");

    assert_eq!(lines(&buffer), vec!["abZ  "]);
}

#[test]
fn terminal_buffer_insert_and_delete_lines_shift_rows_inside_scroll_region() {
    let mut buffer = TerminalBuffer::new(3, 4);
    buffer.push_bytes(b"111222333444\x1b[2;4r\x1b[2;1H\x1b[L");

    assert_eq!(lines(&buffer), vec!["111", "   ", "222", "333"]);

    buffer.push_bytes(b"\x1b[2;1H\x1b[M");
    assert_eq!(lines(&buffer), vec!["111", "222", "333", "   "]);
}

#[test]
fn terminal_buffer_unsupported_sequences_recover_parser_state() {
    let mut buffer = TerminalBuffer::new(4, 1);
    buffer.push_bytes(b"\x1b[?25lOK");

    assert_eq!(lines(&buffer), vec!["OK  "]);
}

#[test]
fn terminal_buffer_grow_resize_preserves_top_left_cells() {
    let mut buffer = TerminalBuffer::new(2, 2);
    buffer.push_bytes(b"ab\r\ncd");
    buffer.resize(4, 3);

    assert_eq!(lines(&buffer), vec!["ab  ", "cd  ", "    "]);
}

#[test]
fn terminal_buffer_shrink_resize_truncates_without_reflow() {
    let mut buffer = TerminalBuffer::new(4, 3);
    buffer.push_bytes(b"abcd\r\nwxyz");
    buffer.resize(2, 2);

    assert_eq!(lines(&buffer), vec!["ab", "wx"]);
}

#[test]
fn render_state_reports_cursor_position() {
    let mut buffer = TerminalBuffer::new(4, 2);
    buffer.push_bytes(b"ab");
    let state = buffer.render_state();

    assert_eq!(state.char_at(0, 0), 'a');
    assert_eq!(state.char_at(0, 1), 'b');
    assert_eq!(
        state.cursor,
        Some(CursorState {
            row: 0,
            col: 2,
            visible: true,
        })
    );
}
