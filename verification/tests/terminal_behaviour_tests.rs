use sample_terminal::cells::{ActiveScreen, Color, CursorState};
use sample_terminal::terminal_buffer::damage::DamageTracker;
use sample_terminal::terminal_buffer::model::SCROLLBACK_CAPACITY;
use sample_terminal::terminal_buffer::TerminalBuffer;

fn rows_of(buffer: &mut TerminalBuffer) -> Vec<String> {
    let state = buffer.render_snapshot(true);
    (0..buffer.rows())
        .map(|row| {
            (0..buffer.cols())
                .map(|col| state.char_at(row, col))
                .collect::<String>()
        })
        .collect()
}

fn cursor_of(buffer: &mut TerminalBuffer) -> Option<CursorState> {
    buffer.render_snapshot(true).cursor
}

#[test]
fn feeding_bytes_in_pieces_matches_feeding_them_at_once() {
    let input: &[u8] = b"ab\x1b[31mc\r\n\xc3\xa9\x1b]0;t\x07\x1b[2;2Hx\x1b[K";
    let mut whole = TerminalBuffer::new(5, 3);
    whole.push_bytes(input);
    for split in 0..input.len() {
        let mut pieces = TerminalBuffer::new(5, 3);
        pieces.push_bytes(&input[..split]);
        pieces.push_bytes(&input[split..]);
        assert_eq!(pieces.render_state(), whole.render_state());
    }
}

#[test]
fn utf8_sequences_decode_into_one_cell() {
    let mut buffer = TerminalBuffer::new(4, 1);
    buffer.push_bytes(b"\xc3\xa9\xe2\x82\xac");
    assert_eq!(rows_of(&mut buffer), vec!["\u{e9}\u{20ac}  ".to_string()]);
}

#[test]
fn utf8_sequence_split_across_writes_still_decodes() {
    let mut buffer = TerminalBuffer::new(3, 1);
    buffer.push_bytes(b"\xe2\x82");
    buffer.push_bytes(b"\xac");
    assert_eq!(rows_of(&mut buffer), vec!["\u{20ac}  ".to_string()]);
}

#[test]
fn invalid_utf8_becomes_replacement_character() {
    let mut buffer = TerminalBuffer::new(4, 1);
    buffer.push_bytes(b"\xff\xc3A");
    assert_eq!(rows_of(&mut buffer), vec!["\u{fffd}\u{fffd}A ".to_string()]);
}

#[test]
fn osc_sequences_are_skipped() {
    let mut buffer = TerminalBuffer::new(4, 1);
    buffer.push_bytes(b"\x1b]0;title\x07ok");
    buffer.push_bytes(b"\x1b]2;x\x1b\\!");
    assert_eq!(rows_of(&mut buffer), vec!["ok! ".to_string()]);
}

#[test]
fn tab_moves_to_next_stop_within_the_row() {
    let mut buffer = TerminalBuffer::new(10, 1);
    buffer.push_bytes(b"a\tb");
    assert_eq!(rows_of(&mut buffer), vec!["a       b ".to_string()]);

    let mut narrow = TerminalBuffer::new(5, 1);
    narrow.push_bytes(b"\tz");
    assert_eq!(rows_of(&mut narrow), vec!["    z".to_string()]);
}

#[test]
fn reverse_index_at_top_scrolls_down() {
    let mut buffer = TerminalBuffer::new(3, 3);
    buffer.push_bytes(b"x\x1bM");
    assert_eq!(
        rows_of(&mut buffer),
        vec!["   ".to_string(), "x  ".to_string(), "   ".to_string()]
    );
    assert_eq!(
        cursor_of(&mut buffer),
        Some(CursorState {
            row: 0,
            col: 1,
            visible: true,
        })
    );
}

#[test]
fn save_and_restore_cursor() {
    let mut buffer = TerminalBuffer::new(4, 2);
    buffer.push_bytes(b"ab\x1b7\x1b[2;1Hc\x1b8d");
    assert_eq!(rows_of(&mut buffer), vec!["abd ".to_string(), "c   ".to_string()]);

    let mut csi = TerminalBuffer::new(4, 2);
    csi.push_bytes(b"a\x1b[s\x1b[2;3Hb\x1b[uc");
    assert_eq!(rows_of(&mut csi), vec!["ac  ".to_string(), "  b ".to_string()]);
}

#[test]
fn full_reset_clears_everything() {
    let mut buffer = TerminalBuffer::new(3, 2);
    buffer.push_bytes(b"abcdefghi\x1b[31m\x1bcz");
    assert_eq!(rows_of(&mut buffer), vec!["z  ".to_string(), "   ".to_string()]);
    assert_eq!(buffer.scrollback_len(), 0);
    let state = buffer.render_snapshot(true);
    assert_eq!(state.cell(0, 0).unwrap().fg, Color::DefaultFg);
}

#[test]
fn erase_whole_display() {
    let mut buffer = TerminalBuffer::new(3, 2);
    buffer.push_bytes(b"ab\r\ncd\x1b[2J");
    assert_eq!(rows_of(&mut buffer), vec!["   ".to_string(), "   ".to_string()]);
    assert_eq!(
        cursor_of(&mut buffer),
        Some(CursorState {
            row: 1,
            col: 2,
            visible: true,
        })
    );
}

#[test]
fn erase_in_line_modes() {
    let mut buffer = TerminalBuffer::new(5, 1);
    buffer.push_bytes(b"abcde\x1b[1;3H\x1b[1K");
    assert_eq!(rows_of(&mut buffer), vec!["   de".to_string()]);
    buffer.push_bytes(b"\x1b[2K");
    assert_eq!(rows_of(&mut buffer), vec!["     ".to_string()]);
}

#[test]
fn cursor_moves_clamp_to_the_grid() {
    let mut buffer = TerminalBuffer::new(4, 3);
    buffer.push_bytes(b"\x1b[2;2H\x1b[500A");
    assert_eq!(
        cursor_of(&mut buffer),
        Some(CursorState {
            row: 0,
            col: 1,
            visible: true,
        })
    );
    buffer.push_bytes(b"\x1b[500B\x1b[500C");
    assert_eq!(
        cursor_of(&mut buffer),
        Some(CursorState {
            row: 2,
            col: 3,
            visible: true,
        })
    );
    buffer.push_bytes(b"\x1b[2G\x1b[1d");
    assert_eq!(
        cursor_of(&mut buffer),
        Some(CursorState {
            row: 0,
            col: 1,
            visible: true,
        })
    );
    buffer.push_bytes(b"\x1b[D\x1b[9D");
    assert_eq!(
        cursor_of(&mut buffer),
        Some(CursorState {
            row: 0,
            col: 0,
            visible: true,
        })
    );
}

#[test]
fn deleting_more_lines_than_the_region_blanks_it() {
    let mut buffer = TerminalBuffer::new(3, 4);
    buffer.push_bytes(b"aaa\nbbb\nccc\nddd");
    buffer.push_bytes(b"\x1b[2;3r\x1b[2;1H\x1b[5M");
    assert_eq!(
        rows_of(&mut buffer),
        vec![
            "aaa".to_string(),
            "   ".to_string(),
            "   ".to_string(),
            "ddd".to_string()
        ]
    );
}

#[test]
fn scroll_region_keeps_rows_outside_it() {
    let mut buffer = TerminalBuffer::new(2, 3);
    buffer.push_bytes(b"11\r\n22\r\n33\x1b[1;2r\x1b[2;1H\n");
    assert_eq!(
        rows_of(&mut buffer),
        vec!["22".to_string(), "  ".to_string(), "33".to_string()]
    );
    assert_eq!(buffer.scrollback_len(), 0);
}

#[test]
fn scrollback_is_capped() {
    let mut buffer = TerminalBuffer::new(1, 1);
    for _ in 0..(SCROLLBACK_CAPACITY + 5) {
        buffer.push_bytes(b"x\n");
    }
    assert_eq!(buffer.scrollback_len(), SCROLLBACK_CAPACITY);
    assert!(buffer.scrollback_row(SCROLLBACK_CAPACITY).is_none());
}

#[test]
fn viewport_offset_is_limited_to_history() {
    let mut buffer = TerminalBuffer::new(2, 1);
    buffer.push_bytes(b"ab\ncd\nef");
    assert_eq!(buffer.scrollback_len(), 2);
    buffer.set_viewport_offset(10);
    assert_eq!(buffer.viewport_offset(), 2);
    assert_eq!(rows_of(&mut buffer), vec!["ab".to_string()]);
    buffer.set_viewport_offset(0);
    assert_eq!(rows_of(&mut buffer), vec!["ef".to_string()]);
}

#[test]
fn alternate_screen_round_trip_restores_primary_and_cursor() {
    let mut buffer = TerminalBuffer::new(3, 2);
    buffer.push_bytes(b"ab\r\nc");
    let before = buffer.render_state();
    buffer.push_bytes(b"\x1b[?1049h\x1b[2J\x1b[1;1Hzzz\x1b[?1049l");
    let after = buffer.render_state();
    assert_eq!(after.cells, before.cells);
    assert_eq!(after.cursor, before.cursor);
    assert_eq!(after.active_screen, ActiveScreen::Primary);
}

#[test]
fn alternate_screen_starts_clear_each_time() {
    let mut buffer = TerminalBuffer::new(3, 1);
    buffer.push_bytes(b"\x1b[?47hxy\x1b[?47l\x1b[?1047h");
    assert_eq!(rows_of(&mut buffer), vec!["   ".to_string()]);
}

#[test]
fn private_mode_1048_saves_and_restores_cursor() {
    let mut buffer = TerminalBuffer::new(4, 2);
    buffer.push_bytes(b"ab\x1b[?1048h\x1b[2;4H\x1b[?1048lc");
    assert_eq!(rows_of(&mut buffer), vec!["abc ".to_string(), "    ".to_string()]);
}

#[test]
fn several_private_modes_in_one_sequence() {
    let mut buffer = TerminalBuffer::new(3, 2);
    buffer.push_bytes(b"\x1b[?25;2004;1l\x1b[?2004;1h");
    let modes = buffer.modes();
    assert!(!modes.cursor_visible);
    assert!(modes.bracketed_paste);
    assert!(modes.application_cursor);
}

#[test]
fn sgr_background_bright_and_reset() {
    let mut buffer = TerminalBuffer::new(4, 1);
    buffer.push_bytes(b"\x1b[44;91ma\x1b[48;5;240;39mb\x1b[0mc\x1b[mD");
    let state = buffer.render_snapshot(true);
    let a = *state.cell(0, 0).unwrap();
    assert_eq!(
        a.bg,
        Color::Ansi {
            index: 4,
            bright: false,
        }
    );
    assert_eq!(
        a.fg,
        Color::Ansi {
            index: 1,
            bright: true,
        }
    );
    let b = *state.cell(0, 1).unwrap();
    assert_eq!(b.bg, Color::Gray { level: 8 });
    assert_eq!(b.fg, Color::DefaultFg);
    let c = *state.cell(0, 2).unwrap();
    assert_eq!((c.fg, c.bg), (Color::DefaultFg, Color::DefaultBg));
    let d = *state.cell(0, 3).unwrap();
    assert_eq!((d.fg, d.bg), (Color::DefaultFg, Color::DefaultBg));
}

#[test]
fn sgr_palette_cube_color() {
    let mut buffer = TerminalBuffer::new(1, 1);
    buffer.push_bytes(b"\x1b[38;5;46mA");
    let state = buffer.render_snapshot(true);
    assert_eq!(
        state.cell(0, 0).unwrap().fg,
        Color::Cube {
            red_level: 0,
            green_level: 5,
            blue_level: 0,
        }
    );
}

#[test]
fn snapshot_hands_out_damage_once() {
    let mut buffer = TerminalBuffer::new(3, 3);
    let _ = buffer.render_snapshot(true);
    buffer.push_bytes(b"\x1b[3;1Hq");
    let first = buffer.render_snapshot(true);
    assert!(first.damage.dirty_rows.contains(&2));
    assert!(first.damage.cursor_dirty);
    let second = buffer.render_snapshot(true);
    assert!(second.damage.dirty_rows.is_empty());
    assert!(!second.damage.full_rebuild);
    assert!(!second.damage.cursor_dirty);
}

#[test]
fn blink_phase_hides_rendered_cursor() {
    let mut buffer = TerminalBuffer::new(3, 2);
    let state = buffer.render_snapshot(false);
    assert_eq!(
        state.cursor,
        Some(CursorState {
            row: 0,
            col: 0,
            visible: false,
        })
    );
}

#[test]
fn zero_sized_terminal_is_one_cell() {
    let mut buffer = TerminalBuffer::new(0, 0);
    assert_eq!((buffer.cols(), buffer.rows()), (1, 1));
    buffer.resize(0, 0);
    assert_eq!((buffer.cols(), buffer.rows()), (1, 1));
    buffer.push_bytes(b"xy");
    assert_eq!(rows_of(&mut buffer), vec!["y".to_string()]);
}

#[test]
fn damage_tracker_marks_inclusive_row_ranges() {
    let mut tracker = DamageTracker::new();
    tracker.mark_rows(2, 4);
    tracker.mark_row(9);
    tracker.mark_cursor_dirty();
    let damage = tracker.take();
    assert_eq!(damage.dirty_rows.iter().copied().collect::<Vec<u16>>(), vec![2, 3, 4, 9]);
    assert!(damage.cursor_dirty);
    assert!(!damage.full_rebuild);

    tracker.mark_all_rows(3);
    tracker.mark_full_rebuild();
    let damage = tracker.take();
    assert_eq!(damage.dirty_rows.iter().copied().collect::<Vec<u16>>(), vec![0, 1, 2]);
    assert!(damage.full_rebuild);
    assert!(damage.global_dirty);

    let empty = tracker.take();
    assert!(empty.dirty_rows.is_empty());
    assert!(!empty.full_rebuild);
}

#[test]
fn scrolling_the_screen_marks_every_row() {
    let mut buffer = TerminalBuffer::new(2, 3);
    buffer.push_bytes(b"a\r\nb\r\nc");
    let _ = buffer.render_snapshot(true);
    buffer.push_bytes(b"\n");
    let damage = buffer.render_snapshot(true).damage;
    assert!(!damage.full_rebuild);
    assert_eq!(damage.dirty_rows.iter().copied().collect::<Vec<u16>>(), vec![0, 1, 2]);
}

#[test]
fn erasing_marks_only_the_erased_rows() {
    let mut buffer = TerminalBuffer::new(3, 3);
    buffer.push_bytes(b"aaa\r\nbbb\r\nccc");
    let _ = buffer.render_snapshot(true);
    buffer.push_bytes(b"\x1b[2;1H\x1b[2K");
    let damage = buffer.render_snapshot(true).damage;
    assert_eq!(damage.dirty_rows.iter().copied().collect::<Vec<u16>>(), vec![1]);
}

#[test]
fn huge_move_counts_saturate() {
    let mut buffer = TerminalBuffer::new(4, 3);
    buffer.push_bytes(b"\x1b[2;2H\x1b[2147483648A");
    assert_eq!(
        cursor_of(&mut buffer),
        Some(CursorState {
            row: 0,
            col: 1,
            visible: true,
        })
    );
    buffer.push_bytes(b"\x1b[2147483648B\x1b[4294967297C");
    assert_eq!(
        cursor_of(&mut buffer),
        Some(CursorState {
            row: 2,
            col: 3,
            visible: true,
        })
    );
    buffer.push_bytes(b"\x1b[99999999999D");
    assert_eq!(
        cursor_of(&mut buffer),
        Some(CursorState {
            row: 2,
            col: 0,
            visible: true,
        })
    );
}

#[test]
fn output_never_changes_the_size() {
    let mut buffer = TerminalBuffer::new(5, 3);
    buffer.push_bytes(b"\x1b[?1049h\x1b[99;99r\x1b[200Lxyz\x1bc\x1b[?1049l\n\n\n\n");
    assert_eq!((buffer.cols(), buffer.rows()), (5, 3));
    assert!(buffer.viewport_offset() <= buffer.scrollback_len());
}
