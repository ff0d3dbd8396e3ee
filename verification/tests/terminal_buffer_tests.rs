use sample_terminal::cells::{ActiveScreen, Color, CursorState};
use sample_terminal::terminal_buffer::TerminalBuffer;

fn lines(buffer: &mut TerminalBuffer) -> Vec<String> {
    let state = buffer.render_snapshot(true);
    (0..buffer.rows())
        .map(|row| {
            (0..buffer.cols())
                .map(|col| state.char_at(row, col))
                .collect::<String>()
        })
        .collect()
}

#[test]
fn mod_appends_plain_text() {
    let mut buffer = TerminalBuffer::new(5, 2);
    buffer.push_bytes(b"hello");

    assert_eq!(
        lines(&mut buffer),
        vec!["hello".to_string(), "     ".to_string()]
    );
}

#[test]
fn mod_handles_newline_and_carriage_return_on_grid() {
    let mut buffer = TerminalBuffer::new(4, 2);
    buffer.push_bytes(b"ab\r12\nxy");

    assert_eq!(
        lines(&mut buffer),
        vec!["12  ".to_string(), "xy  ".to_string()]
    );
}

#[test]
fn mod_wraps_and_scrolls_visible_screen() {
    let mut buffer = TerminalBuffer::new(3, 2);
    buffer.push_bytes(b"abcdefg");

    assert_eq!(
        lines(&mut buffer),
        vec!["def".to_string(), "g  ".to_string()]
    );
    assert_eq!(buffer.scrollback_len(), 1);
    assert_eq!(
        buffer
            .scrollback_row(0)
            .unwrap()
            .iter()
            .map(|cell| cell.ch)
            .collect::<String>(),
        "abc"
    );
}

#[test]
fn mod_cursor_movement_sequences_work() {
    let mut buffer = TerminalBuffer::new(4, 2);
    buffer.push_bytes(b"ab\x1b[2;4H!\x1b[1;1H#");

    assert_eq!(
        lines(&mut buffer),
        vec!["#b  ".to_string(), "   !".to_string()]
    );
}

#[test]
fn mod_erase_in_line_and_display_clear_expected_ranges() {
    let mut buffer = TerminalBuffer::new(4, 2);
    buffer.push_bytes(b"abcdwxyz\x1b[1;3H\x1b[K\x1b[2;2H\x1b[1J");

    assert_eq!(
        lines(&mut buffer),
        vec!["    ".to_string(), "  yz".to_string()]
    );
}

#[test]
fn mod_insert_and_delete_chars_shift_cells() {
    let mut buffer = TerminalBuffer::new(5, 1);
    buffer.push_bytes(b"abcde\x1b[1;3H\x1b[@\x1b[1;3HZ\x1b[1;2H\x1b[P");

    assert_eq!(lines(&mut buffer), vec!["aZcd ".to_string()]);
}

#[test]
fn mod_insert_and_delete_lines_shift_rows_inside_scroll_region() {
    let mut buffer = TerminalBuffer::new(3, 4);
    buffer.push_bytes(b"aaa\nbbb\nccc\nddd");
    buffer.push_bytes(b"\x1b[2;4r\x1b[2;1H\x1b[L");

    assert_eq!(
        lines(&mut buffer),
        vec![
            "aaa".to_string(),
            "   ".to_string(),
            "bbb".to_string(),
            "ccc".to_string()
        ]
    );

    buffer.push_bytes(b"\x1b[2;1H\x1b[M");
    assert_eq!(
        lines(&mut buffer),
        vec![
            "aaa".to_string(),
            "bbb".to_string(),
            "ccc".to_string(),
            "   ".to_string()
        ]
    );
}

#[test]
fn mod_grow_resize_preserves_top_left_cells() {
    let mut buffer = TerminalBuffer::new(2, 2);
    buffer.push_bytes(b"abcd");
    buffer.resize(4, 3);

    assert_eq!(
        lines(&mut buffer),
        vec!["ab  ".to_string(), "cd  ".to_string(), "    ".to_string()]
    );
}

#[test]
fn mod_shrink_resize_truncates_without_reflow() {
    let mut buffer = TerminalBuffer::new(4, 3);
    buffer.push_bytes(b"abcdefgh");
    buffer.resize(2, 2);

    assert_eq!(lines(&mut buffer), vec!["ab".to_string(), "ef".to_string()]);
}

#[test]
fn render_snapshot_reports_cursor_position() {
    let mut buffer = TerminalBuffer::new(4, 2);
    buffer.push_bytes(b"ab");
    let state = buffer.render_snapshot(true);

    assert_eq!(state.char_at(0, 0), 'a');
    assert_eq!(state.char_at(0, 1), 'b');
    assert_eq!(
        state.cursor,
        Some(CursorState {
            row: 0,
            col: 2,
            visible: true,
        })
    );
}

#[test]
fn mod_unsupported_sequences_recover_parser_state() {
    let mut buffer = TerminalBuffer::new(4, 1);
    buffer.push_bytes(b"\x1b[?9999hhi");

    assert_eq!(lines(&mut buffer), vec!["hi  ".to_string()]);
}

#[test]
fn sgr_colors_update_cells() {
    let mut buffer = TerminalBuffer::new(3, 1);
    buffer.push_bytes(b"\x1b[31mA\x1b[38;5;46mB\x1b[38;2;1;2;3mC");
    let state = buffer.render_snapshot(true);

    assert_ne!(state.cell(0, 0).unwrap().fg, Color::DefaultFg);
    assert_ne!(state.cell(0, 1).unwrap().fg, Color::DefaultFg);
    assert_eq!(
        state.cell(0, 2).unwrap().fg,
        Color::Rgb {
            red: 1,
            green: 2,
            blue: 3,
        }
    );
}

#[test]
fn alternate_screen_is_isolated_from_primary() {
    let mut buffer = TerminalBuffer::new(3, 2);
    buffer.push_bytes(b"abc");
    buffer.push_bytes(b"\x1b[?1049hXY");
    let alt = buffer.render_snapshot(true);
    assert_eq!(alt.active_screen, ActiveScreen::Alternate);
    assert_eq!(alt.char_at(0, 0), 'X');
    assert_eq!(alt.char_at(0, 1), 'Y');

    buffer.push_bytes(b"\x1b[?1049l");
    let primary = buffer.render_snapshot(true);
    assert_eq!(primary.active_screen, ActiveScreen::Primary);
    assert_eq!(primary.char_at(0, 0), 'a');
    assert_eq!(primary.char_at(0, 1), 'b');
    assert_eq!(primary.char_at(0, 2), 'c');
}

#[test]
fn damage_marks_row_changes_and_resize_full_rebuild() {
    let mut buffer = TerminalBuffer::new(3, 2);
    let initial = buffer.render_snapshot(true);
    assert!(initial.damage.full_rebuild);

    buffer.push_bytes(b"a");
    let changed = buffer.render_snapshot(true);
    assert!(!changed.damage.full_rebuild);
    assert_eq!(changed.damage.dirty_rows.len(), 1);
    assert!(changed.damage.dirty_rows.contains(&0));

    buffer.resize(4, 3);
    let resized = buffer.render_snapshot(true);
    assert!(resized.damage.full_rebuild);
}

#[test]
fn viewport_can_show_scrollback_and_hides_cursor() {
    let mut buffer = TerminalBuffer::new(3, 2);
    buffer.push_bytes(b"abcdefg");

    assert_eq!(
        lines(&mut buffer),
        vec!["def".to_string(), "g  ".to_string()]
    );

    buffer.set_viewport_offset(1);
    let state = buffer.render_snapshot(true);

    assert_eq!(state.char_at(0, 0), 'a');
    assert_eq!(state.char_at(0, 1), 'b');
    assert_eq!(state.char_at(0, 2), 'c');
    assert_eq!(state.char_at(1, 0), 'd');
    assert_eq!(state.char_at(1, 1), 'e');
    assert_eq!(state.char_at(1, 2), 'f');
    assert_eq!(
        state.cursor,
        Some(CursorState {
            row: 1,
            col: 1,
            visible: false,
        })
    );
}

#[test]
fn same_size_resize_does_not_force_damage() {
    let mut buffer = TerminalBuffer::new(3, 2);
    let _ = buffer.render_snapshot(true);

    buffer.resize(3, 2);
    let snapshot = buffer.render_snapshot(true);
    assert!(!snapshot.damage.full_rebuild);
    assert!(snapshot.damage.dirty_rows.is_empty());
}

#[test]
fn terminal_modes_start_with_expected_defaults() {
    let buffer = TerminalBuffer::new(3, 2);
    let modes = buffer.modes();

    assert!(modes.cursor_visible);
    assert!(!modes.bracketed_paste);
    assert!(!modes.application_cursor);
    assert!(!modes.origin_mode);
}

#[test]
fn dec_cursor_visibility_controls_rendered_cursor() {
    let mut buffer = TerminalBuffer::new(3, 2);
    buffer.push_bytes(b"a");
    assert_eq!(
        buffer.render_snapshot(true).cursor,
        Some(CursorState {
            row: 0,
            col: 1,
            visible: true,
        })
    );

    buffer.push_bytes(b"\x1b[?25l");
    assert_eq!(
        buffer.render_snapshot(true).cursor,
        Some(CursorState {
            row: 0,
            col: 1,
            visible: false,
        })
    );

    buffer.push_bytes(b"\x1b[?25h");
    assert_eq!(
        buffer.render_snapshot(true).cursor,
        Some(CursorState {
            row: 0,
            col: 1,
            visible: true,
        })
    );
}

#[test]
fn dec_bracketed_paste_mode_updates_terminal_modes() {
    let mut buffer = TerminalBuffer::new(3, 2);
    assert!(!buffer.modes().bracketed_paste);

    buffer.push_bytes(b"\x1b[?2004h");
    assert!(buffer.modes().bracketed_paste);

    buffer.push_bytes(b"\x1b[?2004l");
    assert!(!buffer.modes().bracketed_paste);
}

#[test]
fn dec_input_modes_update_terminal_modes() {
    let mut buffer = TerminalBuffer::new(3, 2);
    assert!(!buffer.modes().application_cursor);
    assert!(!buffer.modes().origin_mode);

    buffer.push_bytes(b"\x1b[?1h\x1b[?6h");
    assert!(buffer.modes().application_cursor);
    assert!(buffer.modes().origin_mode);

    buffer.push_bytes(b"\x1b[?1l\x1b[?6l");
    assert!(!buffer.modes().application_cursor);
    assert!(!buffer.modes().origin_mode);
}
