//! Properties that hold of the terminal across operations.
use vstd::prelude::*;

use super::model::{
    csi_fields, decimal_value, parse_csi_spec, sgr_from, utf8_complete, utf8_prefix, utf8_scalar,
    utf8_width, TerminalModel, CSI_PARAMS_LIMIT,
};
use super::types::{CellAttributes, ParserModel, TerminalCell, TerminalModes};
use crate::cells::{ActiveScreen, Color};

verus! {

/// Feeding output in two chunks gives the same terminal as feeding it at once.
pub proof fn lemma_push_bytes_concat(m: TerminalModel, a: Seq<u8>, b: Seq<u8>)
    ensures
        m.push_bytes(a + b) == m.push_bytes(a).push_bytes(b),
    decreases b.len(),
{
    if b.len() == 0 {
        assert(a + b =~= a);
    } else {
        assert((a + b).drop_last() =~= a + b.drop_last());
        assert((a + b).last() == b.last());
        lemma_push_bytes_concat(m, a, b.drop_last());
    }
}

/// Resizing to the current size changes nothing, damage included.
pub proof fn lemma_resize_same_size(m: TerminalModel)
    requires
        m.wf(),
    ensures
        m.resize(m.primary.cols, m.primary.rows) == m,
{
}

/// Resizing to another size asks for a full rebuild and clamps the view into the history.
pub proof fn lemma_resize_asks_full_rebuild(m: TerminalModel, cols: u16, rows: u16)
    requires
        m.wf(),
        (if cols == 0 { 1 } else { cols }) != m.primary.cols || (if rows == 0 { 1 } else { rows })
            != m.primary.rows,
    ensures
        m.resize(cols, rows).damage.full_rebuild,
        m.resize(cols, rows).viewport_offset <= m.resize(cols, rows).scrollback.len(),
{
}

/// Resizing keeps every cell that lies in both the old and the new grid, on both screens,
/// and fills the rest with empty cells.
pub proof fn lemma_resize_keeps_top_left(m: TerminalModel, cols: u16, rows: u16, r: int, c: int)
    requires
        m.wf(),
        0 <= r < (if rows == 0 { 1 } else { rows as int }),
        0 <= c < (if cols == 0 { 1 } else { cols as int }),
    ensures
        m.resize(cols, rows).primary.grid[r][c] == if r < m.primary.rows && c < m.primary.cols {
            m.primary.grid[r][c]
        } else {
            TerminalCell::blank()
        },
        m.resize(cols, rows).alternate.grid[r][c] == if r < m.alternate.rows && c
            < m.alternate.cols {
            m.alternate.grid[r][c]
        } else {
            TerminalCell::blank()
        },
{
}

/// Showing the alternate screen and leaving it again returns to the primary screen with
/// its grid, cursor and history as they were.
pub proof fn lemma_alternate_round_trip(m: TerminalModel)
    requires
        m.wf(),
        m.active_screen == ActiveScreen::Primary,
    ensures
        m.enter_alternate_screen().exit_alternate_screen().active_screen == ActiveScreen::Primary,
        m.enter_alternate_screen().exit_alternate_screen().primary == m.primary,
        m.enter_alternate_screen().exit_alternate_screen().scrollback == m.scrollback,
{
}

/// The private modes of one sequence never touch the primary grid or the history.
proof fn lemma_private_modes_keep_primary(m: TerminalModel, params: Seq<Option<usize>>, enabled: bool)
    ensures
        m.set_private_modes(params, enabled).primary.grid == m.primary.grid,
        m.set_private_modes(params, enabled).scrollback == m.scrollback,
        m.set_private_modes(params, enabled).parser == m.parser,
        m.set_private_modes(params, enabled).utf8_buffer == m.utf8_buffer,
    decreases params.len(),
{
    if params.len() > 0 {
        let next = match params[0] {
            Some(p) => m.private_mode(p, enabled),
            None => m,
        };
        lemma_private_modes_keep_primary(next, params.drop_first(), enabled);
    }
}

/// A control sequence leaves the parser and the pending UTF-8 bytes alone, and, while the
/// alternate screen is shown, the primary grid and the history too.
#[verifier::rlimit(40)]
proof fn lemma_execute_csi_frame(m: TerminalModel, final_byte: u8, raw: Seq<u8>)
    ensures
        m.execute_csi(final_byte, raw).parser == m.parser,
        m.execute_csi(final_byte, raw).utf8_buffer == m.utf8_buffer,
        m.active_screen == ActiveScreen::Alternate ==> m.execute_csi(final_byte, raw).primary.grid
            == m.primary.grid,
        m.active_screen == ActiveScreen::Alternate ==> m.execute_csi(final_byte, raw).scrollback
            == m.scrollback,
{
    reveal(TerminalModel::execute_csi);
    let ps = parse_csi_spec(raw).1;
    lemma_private_modes_keep_primary(m, ps, true);
    lemma_private_modes_keep_primary(m, ps, false);
}

/// A control sequence always ends at its final byte: the parser is back in its ground
/// state afterwards, whatever the sequence was, supported or not.
pub proof fn lemma_csi_returns_to_ground(m: TerminalModel, byte: u8)
    requires
        m.parser is Csi,
        0x40 <= byte <= 0x7e,
    ensures
        m.push_byte(byte).parser is Ground,
{
    reveal(TerminalModel::push_byte);
    lemma_execute_csi_frame(
        m.with_parser(ParserModel::Ground),
        byte,
        m.parser->Csi_0,
    );
}

/// An operating system command ends at BEL, or at `ESC \`, back in the ground state.
pub proof fn lemma_osc_returns_to_ground(m: TerminalModel)
    requires
        m.parser is Osc,
    ensures
        m.push_byte(0x07).parser is Ground,
        m.push_byte(0x1b).push_byte(92).parser is Ground,
{
    reveal(TerminalModel::push_byte);
}

/// While the alternate screen is shown, writing a character leaves the primary grid and
/// the history as they are.
pub proof fn lemma_alternate_write_keeps_primary(m: TerminalModel, ch: char)
    requires
        m.wf(),
        m.active_screen == ActiveScreen::Alternate,
    ensures
        m.write_char(ch).primary.grid == m.primary.grid,
        m.write_char(ch).scrollback == m.scrollback,
{
}

/// While the alternate screen is shown, no output byte changes the primary grid or the
/// history, except a full reset (`ESC c`).
pub proof fn lemma_alternate_output_keeps_primary(m: TerminalModel, byte: u8)
    requires
        m.wf(),
        m.active_screen == ActiveScreen::Alternate,
        !(m.parser is Escape && byte == 99),
    ensures
        m.push_byte(byte).primary.grid == m.primary.grid,
        m.push_byte(byte).scrollback == m.scrollback,
{
    reveal(TerminalModel::push_byte);
    match m.parser {
        ParserModel::Csi(bytes) => {
            lemma_execute_csi_frame(m.with_parser(ParserModel::Ground), byte, bytes);
        },
        _ => {},
    }
}

/// Once the terminal hides its cursor, no blink phase draws it.
pub proof fn lemma_hidden_cursor_stays_hidden(m: TerminalModel, blink_visible: bool)
    requires
        !m.modes.cursor_visible,
    ensures
        !m.snapshot_cursor(blink_visible).visible,
{
}

/// Feeding one more byte runs it on the terminal that the earlier bytes left.
proof fn lemma_push_bytes_snoc(m: TerminalModel, s: Seq<u8>, b: u8)
    ensures
        m.push_bytes(s.push(b)) == m.push_bytes(s).push_byte(b),
{
    assert(s.push(b).drop_last() =~= s);
}

/// The parser's step in each state other than the ground state, and for ESC in the
/// ground state.
proof fn lemma_push_byte_by_state(m: TerminalModel, b: u8)
    ensures
        m.parser is Ground && b == 0x1b ==> m.push_byte(b) == m.flush_utf8().with_parser(
            ParserModel::Escape,
        ),
        m.parser is Escape ==> m.push_byte(b) == m.escape_byte(b),
        m.parser is Csi ==> m.push_byte(b) == m.csi_byte(m.parser->Csi_0, b),
        m.parser is Osc ==> m.push_byte(b) == m.osc_byte(b),
        m.parser is OscEsc ==> m.push_byte(b) == m.osc_esc_byte(b),
{
    reveal(TerminalModel::push_byte);
}

/// `ESC [`, parameter bytes that are no final byte, and a final byte, fed from the ground
/// state, run that one control sequence (after writing any unfinished UTF-8 character).
pub proof fn lemma_push_csi(m: TerminalModel, raw: Seq<u8>, final_byte: u8)
    requires
        m.parser is Ground,
        raw.len() <= CSI_PARAMS_LIMIT,
        forall|i: int| 0 <= i < raw.len() ==> !(0x40 <= #[trigger] raw[i] <= 0x7e),
        0x40 <= final_byte <= 0x7e,
    ensures
        m.push_bytes(seq![0x1bu8, 0x5bu8] + raw + seq![final_byte]) == m.flush_utf8().with_parser(
            ParserModel::Ground,
        ).execute_csi(final_byte, raw),
{
    lemma_csi_collect(m, raw, raw.len() as int);
    let head = seq![0x1bu8, 0x5bu8] + raw;
    assert(raw.subrange(0, raw.len() as int) =~= raw);
    assert(seq![0x1bu8, 0x5bu8] + raw + seq![final_byte] =~= head.push(final_byte));
    let before = m.flush_utf8().with_parser(ParserModel::Csi(raw));
    lemma_push_bytes_snoc(m, head, final_byte);
    lemma_push_byte_by_state(before, final_byte);
}

/// The parameter bytes of a control sequence are collected one by one.
proof fn lemma_csi_collect(m: TerminalModel, raw: Seq<u8>, k: int)
    requires
        m.parser is Ground,
        0 <= k <= raw.len() <= CSI_PARAMS_LIMIT,
        forall|i: int| 0 <= i < raw.len() ==> !(0x40 <= #[trigger] raw[i] <= 0x7e),
    ensures
        m.push_bytes(seq![0x1bu8, 0x5bu8] + raw.subrange(0, k)) == m.flush_utf8().with_parser(
            ParserModel::Csi(raw.subrange(0, k)),
        ),
    decreases k,
{
    let esc = m.flush_utf8().with_parser(ParserModel::Escape);
    if k == 0 {
        assert(seq![0x1bu8, 0x5bu8] + raw.subrange(0, 0) =~= seq![0x1bu8].push(0x5bu8));
        assert(raw.subrange(0, 0) =~= Seq::<u8>::empty());
        assert(Seq::<u8>::empty().push(0x1bu8) =~= seq![0x1bu8]);
        lemma_push_bytes_snoc(m, Seq::<u8>::empty(), 0x1b);
        lemma_push_bytes_snoc(m, seq![0x1bu8], 0x5b);
        lemma_push_byte_by_state(m, 0x1b);
        lemma_push_byte_by_state(esc, 0x5b);
    } else {
        lemma_csi_collect(m, raw, k - 1);
        let prev = seq![0x1bu8, 0x5bu8] + raw.subrange(0, k - 1);
        assert(seq![0x1bu8, 0x5bu8] + raw.subrange(0, k) =~= prev.push(raw[k - 1]));
        assert(raw.subrange(0, k - 1).push(raw[k - 1]) =~= raw.subrange(0, k));
        let before = m.flush_utf8().with_parser(ParserModel::Csi(raw.subrange(0, k - 1)));
        lemma_push_bytes_snoc(m, prev, raw[k - 1]);
        lemma_push_byte_by_state(before, raw[k - 1]);
    }
}

/// The parameters of `?` followed by one field of digits.
proof fn lemma_private_single_param(raw: Seq<u8>, digits: Seq<u8>)
    requires
        raw == seq![63u8] + digits,
        digits.len() > 0,
        forall|i: int| 0 <= i < digits.len() ==> 48 <= #[trigger] digits[i] <= 57,
        decimal_value(digits) <= usize::MAX,
    ensures
        parse_csi_spec(raw) == (true, seq![Some(decimal_value(digits) as usize)]),
{
    assert(raw.drop_first() =~= digits);
    assert(super::model::is_digit(digits[0]));
    lemma_csi_fields_digits(digits);
    assert(csi_fields(digits).map_values(|f: Seq<u8>| super::model::field_value(f)) =~= seq![
        Some(decimal_value(digits) as usize),
    ]);
}

/// A string of digits is one field.
proof fn lemma_csi_fields_digits(digits: Seq<u8>)
    requires
        forall|i: int| 0 <= i < digits.len() ==> 48 <= #[trigger] digits[i] <= 57,
    ensures
        csi_fields(digits) == seq![digits],
    decreases digits.len(),
{
    if digits.len() == 0 {
        assert(digits =~= Seq::<u8>::empty());
    } else {
        lemma_csi_fields_digits(digits.drop_last());
        let f = csi_fields(digits.drop_last());
        assert(super::model::is_digit(digits.last()));
        assert(csi_fields(digits) == f.update(f.len() - 1, f.last().push(digits.last())));
        assert(digits.drop_last().push(digits.last()) =~= digits);
        assert(csi_fields(digits) =~= seq![digits]);
    }
}

/// `ESC [ ? n h` sets and `ESC [ ? n l` resets one DEC private mode; fed from the ground
/// state, it changes only that mode among the modes.
proof fn lemma_private_mode_sequence(m: TerminalModel, digits: Seq<u8>, final_byte: u8)
    requires
        m.parser is Ground,
        digits.len() > 0 && digits.len() < CSI_PARAMS_LIMIT,
        forall|i: int| 0 <= i < digits.len() ==> 48 <= #[trigger] digits[i] <= 57,
        decimal_value(digits) <= usize::MAX,
        final_byte == 104 || final_byte == 108,
    ensures
        m.push_bytes(seq![0x1bu8, 0x5bu8] + (seq![63u8] + digits) + seq![final_byte])
            == m.flush_utf8().with_parser(ParserModel::Ground).private_mode(
            decimal_value(digits) as usize,
            final_byte == 104,
        ).no_wrap(),
{
    let raw = seq![63u8] + digits;
    lemma_push_csi(m, raw, final_byte);
    lemma_private_single_param(raw, digits);
    reveal(TerminalModel::execute_csi);
    let base = m.flush_utf8().with_parser(ParserModel::Ground);
    let ps = seq![Some(decimal_value(digits) as usize)];
    assert(ps.drop_first() =~= Seq::<Option<usize>>::empty());
    assert(base.set_private_modes(ps, final_byte == 104) == base.private_mode(
        decimal_value(digits) as usize,
        final_byte == 104,
    ).set_private_modes(Seq::empty(), final_byte == 104));
}

/// `ESC [ ? 25 l` hides the cursor and `ESC [ ? 25 h` shows it; `?2004` switches
/// bracketed paste, `?1` application cursor keys and `?6` origin mode the same way. Each
/// leaves the other modes as they were.
pub proof fn lemma_dec_mode_sequences(m: TerminalModel, final_byte: u8)
    requires
        m.parser is Ground,
        final_byte == 104 || final_byte == 108,
    ensures
        m.push_bytes(seq![0x1bu8, 0x5bu8, 63u8, 50u8, 53u8, final_byte]).modes == (TerminalModes {
            cursor_visible: final_byte == 104,
            ..m.modes
        }),
        m.push_bytes(seq![0x1bu8, 0x5bu8, 63u8, 50u8, 48u8, 48u8, 52u8, final_byte]).modes
            == (TerminalModes { bracketed_paste: final_byte == 104, ..m.modes }),
        m.push_bytes(seq![0x1bu8, 0x5bu8, 63u8, 49u8, final_byte]).modes == (TerminalModes {
            application_cursor: final_byte == 104,
            ..m.modes
        }),
        m.push_bytes(seq![0x1bu8, 0x5bu8, 63u8, 54u8, final_byte]).modes == (TerminalModes {
            origin_mode: final_byte == 104,
            ..m.modes
        }),
{
    let d25 = seq![50u8, 53u8];
    let d2004 = seq![50u8, 48u8, 48u8, 52u8];
    let d1 = seq![49u8];
    let d6 = seq![54u8];
    reveal_with_fuel(decimal_value, 5);
    assert(decimal_value(d25) == 25) by {
        assert(d25.drop_last() =~= seq![50u8]);
        assert(seq![50u8].drop_last() =~= Seq::<u8>::empty());
    }
    assert(decimal_value(d2004) == 2004) by {
        assert(d2004.drop_last() =~= seq![50u8, 48u8, 48u8]);
        assert(seq![50u8, 48u8, 48u8].drop_last() =~= seq![50u8, 48u8]);
        assert(seq![50u8, 48u8].drop_last() =~= seq![50u8]);
        assert(seq![50u8].drop_last() =~= Seq::<u8>::empty());
    }
    assert(decimal_value(d1) == 1) by {
        assert(d1.drop_last() =~= Seq::<u8>::empty());
    }
    assert(decimal_value(d6) == 6) by {
        assert(d6.drop_last() =~= Seq::<u8>::empty());
    }
    lemma_private_mode_sequence(m, d25, final_byte);
    lemma_private_mode_sequence(m, d2004, final_byte);
    lemma_private_mode_sequence(m, d1, final_byte);
    lemma_private_mode_sequence(m, d6, final_byte);
    assert(seq![0x1bu8, 0x5bu8] + (seq![63u8] + d25) + seq![final_byte] =~= seq![
        0x1bu8,
        0x5bu8,
        63u8,
        50u8,
        53u8,
        final_byte,
    ]);
    assert(seq![0x1bu8, 0x5bu8] + (seq![63u8] + d2004) + seq![final_byte] =~= seq![
        0x1bu8,
        0x5bu8,
        63u8,
        50u8,
        48u8,
        48u8,
        52u8,
        final_byte,
    ]);
    assert(seq![0x1bu8, 0x5bu8] + (seq![63u8] + d1) + seq![final_byte] =~= seq![
        0x1bu8,
        0x5bu8,
        63u8,
        49u8,
        final_byte,
    ]);
    assert(seq![0x1bu8, 0x5bu8] + (seq![63u8] + d6) + seq![final_byte] =~= seq![
        0x1bu8,
        0x5bu8,
        63u8,
        54u8,
        final_byte,
    ]);
    lemma_flush_keeps_modes(m);
}

/// Writing out an unfinished UTF-8 character leaves the modes alone.
proof fn lemma_flush_keeps_modes(m: TerminalModel)
    ensures
        m.flush_utf8().modes == m.modes,
{
}

/// An operating system command (`ESC ]`, a body without BEL or ESC, then BEL or `ESC \`)
/// fed from the ground state changes nothing but writing out an unfinished UTF-8
/// character: the title is not applied, and the parser is back in its ground state.
pub proof fn lemma_osc_sequence_is_skipped(m: TerminalModel, body: Seq<u8>)
    requires
        m.parser is Ground,
        forall|i: int| 0 <= i < body.len() ==> #[trigger] body[i] != 0x07 && body[i] != 0x1b,
    ensures
        m.push_bytes(seq![0x1bu8, 0x5du8] + body + seq![0x07u8]) == m.flush_utf8(),
        m.push_bytes(seq![0x1bu8, 0x5du8] + body + seq![0x1bu8, 0x5cu8]) == m.flush_utf8(),
{
    lemma_osc_collect(m, body, body.len() as int);
    let head = seq![0x1bu8, 0x5du8] + body;
    assert(body.subrange(0, body.len() as int) =~= body);
    let osc = m.flush_utf8().with_parser(ParserModel::Osc);
    assert(head + seq![0x07u8] =~= head.push(0x07));
    assert(head + seq![0x1bu8, 0x5cu8] =~= head.push(0x1b).push(0x5c));
    lemma_push_bytes_snoc(m, head, 0x07);
    lemma_push_bytes_snoc(m, head, 0x1b);
    lemma_push_bytes_snoc(m, head.push(0x1b), 0x5c);
    lemma_push_byte_by_state(osc, 0x07);
    lemma_push_byte_by_state(osc, 0x1b);
    lemma_push_byte_by_state(m.flush_utf8().with_parser(ParserModel::OscEsc), 0x5c);
    assert(m.flush_utf8().with_parser(ParserModel::Ground) == m.flush_utf8());
}

/// The body of an operating system command is skipped byte by byte.
proof fn lemma_osc_collect(m: TerminalModel, body: Seq<u8>, k: int)
    requires
        m.parser is Ground,
        0 <= k <= body.len(),
        forall|i: int| 0 <= i < body.len() ==> #[trigger] body[i] != 0x07 && body[i] != 0x1b,
    ensures
        m.push_bytes(seq![0x1bu8, 0x5du8] + body.subrange(0, k)) == m.flush_utf8().with_parser(
            ParserModel::Osc,
        ),
    decreases k,
{
    let esc = m.flush_utf8().with_parser(ParserModel::Escape);
    if k == 0 {
        assert(seq![0x1bu8, 0x5du8] + body.subrange(0, 0) =~= seq![0x1bu8].push(0x5du8));
        assert(Seq::<u8>::empty().push(0x1bu8) =~= seq![0x1bu8]);
        lemma_push_bytes_snoc(m, Seq::<u8>::empty(), 0x1b);
        lemma_push_bytes_snoc(m, seq![0x1bu8], 0x5d);
        lemma_push_byte_by_state(m, 0x1b);
        lemma_push_byte_by_state(esc, 0x5d);
    } else {
        lemma_osc_collect(m, body, k - 1);
        let prev = seq![0x1bu8, 0x5du8] + body.subrange(0, k - 1);
        assert(seq![0x1bu8, 0x5du8] + body.subrange(0, k) =~= prev.push(body[k - 1]));
        let before = m.flush_utf8().with_parser(ParserModel::Osc);
        lemma_push_bytes_snoc(m, prev, body[k - 1]);
        lemma_push_byte_by_state(before, body[k - 1]);
    }
}

/// With the view at the live rows, the rows on display are the shown screen's grid; on
/// the alternate screen they always are.
pub proof fn lemma_live_view_shows_screen(m: TerminalModel)
    requires
        m.wf(),
        m.viewport_offset == 0 || m.active_screen == ActiveScreen::Alternate,
    ensures
        m.visible_rows() == m.screen().grid,
{
    assert(m.visible_rows() =~= m.screen().grid);
}

/// A written character lands in the cell under the cursor with the current attributes,
/// and the view returns to the live rows, so the next snapshot shows it there.
pub proof fn lemma_written_char_is_shown(m: TerminalModel, ch: char)
    requires
        m.wf(),
        !m.screen().wrap_pending,
    ensures
        ({
            let s = m.screen();
            let after = m.write_char(ch);
            &&& after.viewport_offset == 0
            &&& after.active_screen == m.active_screen
            &&& after.visible_rows()[s.cursor_row as int][s.cursor_col as int] == (TerminalCell {
                ch,
                fg: m.current_attr.fg,
                bg: m.current_attr.bg,
                flags: m.current_attr.flags,
            })
        }),
{
    let after = m.write_char(ch);
    let s = m.screen();
    assert(after.screen().grid.len() == s.rows);
    assert(after.visible_rows()[s.cursor_row as int] == after.screen().grid[s.cursor_row as int]);
}

/// Inserting `count` characters (at least one, no more than fit) at the cursor column `c`
/// of a `w`-column row: the cells left of `c` stay, the next `k` cells are blank, and every
/// later cell holds the cell that was `k` columns to its left, where
/// `k = min(max(count, 1), w - c)`; the other rows stay.
pub proof fn lemma_insert_chars_shifts_right(m: TerminalModel, count: u16)
    requires
        m.wf(),
    ensures
        ({
            let s = m.screen();
            let r = s.cursor_row as int;
            let c = s.cursor_col as int;
            let w = s.cols as int;
            let n = if count == 0 { 1int } else { count as int };
            let k = if n < w - c { n } else { w - c };
            let after = m.insert_chars(count).screen();
            &&& after.grid[r].len() == w
            &&& forall|j: int| 0 <= j < c ==> #[trigger] after.grid[r][j] == s.grid[r][j]
            &&& forall|j: int| c <= j < c + k ==> #[trigger] after.grid[r][j] == TerminalCell::blank()
            &&& forall|j: int| c + k <= j < w ==> #[trigger] after.grid[r][j] == s.grid[r][j - k]
            &&& forall|i: int| 0 <= i < s.rows && i != r ==> #[trigger] after.grid[i] == s.grid[i]
        }),
{
}

/// Deleting `count` characters (at least one, no more than there are) at the cursor
/// column `c` of a `w`-column row: the cells left of `c` stay, every cell from `c` to
/// `w - k` holds the cell `k` columns to its right, and the last `k` cells are blank, where
/// `k = min(max(count, 1), w - c)`; the other rows stay.
pub proof fn lemma_delete_chars_shifts_left(m: TerminalModel, count: u16)
    requires
        m.wf(),
    ensures
        ({
            let s = m.screen();
            let r = s.cursor_row as int;
            let c = s.cursor_col as int;
            let w = s.cols as int;
            let n = if count == 0 { 1int } else { count as int };
            let k = if n < w - c { n } else { w - c };
            let after = m.delete_chars(count).screen();
            &&& after.grid[r].len() == w
            &&& forall|j: int| 0 <= j < c ==> #[trigger] after.grid[r][j] == s.grid[r][j]
            &&& forall|j: int| c <= j < w - k ==> #[trigger] after.grid[r][j] == s.grid[r][j + k]
            &&& forall|j: int| w - k <= j < w ==> #[trigger] after.grid[r][j] == TerminalCell::blank()
            &&& forall|i: int| 0 <= i < s.rows && i != r ==> #[trigger] after.grid[i] == s.grid[i]
        }),
{
}

/// What one graphic-rendition parameter does to the attributes (an empty parameter counts
/// as 0): 0 resets them; 30 to 37 and 90 to 97 set a normal or bright foreground, 40 to 47
/// and 100 to 107 a normal or bright background; 39 restores the default foreground and
/// 49 the default background, each leaving everything else; any other parameter, including
/// a 38 or 48 with no color after it, changes nothing.
pub proof fn lemma_sgr_one_parameter(attr: CellAttributes, p: Option<usize>)
    ensures
        ({
            let out = sgr_from(attr, seq![p], 0);
            let v = if p is Some { p->0 } else { 0 };
            &&& v == 0 ==> out == (CellAttributes {
                fg: Color::DefaultFg,
                bg: Color::DefaultBg,
                flags: 0,
            })
            &&& 30 <= v <= 37 ==> out == (CellAttributes {
                fg: Color::Ansi { index: (v - 30) as u8, bright: false },
                ..attr
            })
            &&& 90 <= v <= 97 ==> out == (CellAttributes {
                fg: Color::Ansi { index: (v - 90) as u8, bright: true },
                ..attr
            })
            &&& 40 <= v <= 47 ==> out == (CellAttributes {
                bg: Color::Ansi { index: (v - 40) as u8, bright: false },
                ..attr
            })
            &&& 100 <= v <= 107 ==> out == (CellAttributes {
                bg: Color::Ansi { index: (v - 100) as u8, bright: true },
                ..attr
            })
            &&& v == 39 ==> out == (CellAttributes { fg: Color::DefaultFg, ..attr })
            &&& v == 49 ==> out == (CellAttributes { bg: Color::DefaultBg, ..attr })
            &&& (v != 0 && !(30 <= v <= 37) && !(90 <= v <= 97) && !(40 <= v <= 47) && !(100 <= v
                <= 107) && v != 39 && v != 49) ==> out == attr
        }),
{
    reveal_with_fuel(sgr_from, 2);
    let ps = seq![p];
    assert(ps.subrange(1, 1) =~= Seq::<Option<usize>>::empty());
}

/// Parameters after a run without 38 or 48 (which take the next parameters as a color)
/// act on the attributes that the run left: the run and the rest apply one after the other.
pub proof fn lemma_sgr_runs_in_order(attr: CellAttributes, p: Seq<Option<usize>>, q: Seq<Option<usize>>)
    requires
        forall|i: int| 0 <= i < p.len() ==> #[trigger] p[i] != Some(38usize) && p[i] != Some(48usize),
    ensures
        sgr_from(attr, p + q, 0) == sgr_from(sgr_from(attr, p, 0), q, 0),
{
    lemma_sgr_prefix(attr, p, q, 0);
}

proof fn lemma_sgr_prefix(attr: CellAttributes, p: Seq<Option<usize>>, q: Seq<Option<usize>>, i: int)
    requires
        0 <= i <= p.len(),
        forall|j: int| 0 <= j < p.len() ==> #[trigger] p[j] != Some(38usize) && p[j] != Some(48usize),
    ensures
        sgr_from(attr, p + q, i) == sgr_from(sgr_from(attr, p, i), q, 0),
    decreases p.len() - i,
{
    if i == p.len() {
        lemma_sgr_shift(attr, p, q, 0);
    } else {
        let v = if p[i] is Some { p[i]->0 } else { 0 };
        assert((p + q)[i] == p[i]);
        let next = if v == 0 {
            CellAttributes::initial()
        } else if 30 <= v <= 37 {
            CellAttributes { fg: Color::Ansi { index: (v - 30) as u8, bright: false }, ..attr }
        } else if 40 <= v <= 47 {
            CellAttributes { bg: Color::Ansi { index: (v - 40) as u8, bright: false }, ..attr }
        } else if 90 <= v <= 97 {
            CellAttributes { fg: Color::Ansi { index: (v - 90) as u8, bright: true }, ..attr }
        } else if 100 <= v <= 107 {
            CellAttributes { bg: Color::Ansi { index: (v - 100) as u8, bright: true }, ..attr }
        } else if v == 39 {
            CellAttributes { fg: Color::DefaultFg, ..attr }
        } else if v == 49 {
            CellAttributes { bg: Color::DefaultBg, ..attr }
        } else {
            attr
        };
        assert(v != 38 && v != 48);
        assert(sgr_from(attr, p + q, i) == sgr_from(next, p + q, i + 1));
        assert(sgr_from(attr, p, i) == sgr_from(next, p, i + 1));
        lemma_sgr_prefix(next, p, q, i + 1);
    }
}

/// Processing from position `p.len() + j` of `p + q` is processing from `j` of `q`.
proof fn lemma_sgr_shift(attr: CellAttributes, p: Seq<Option<usize>>, q: Seq<Option<usize>>, j: int)
    requires
        0 <= j,
    ensures
        sgr_from(attr, p + q, p.len() + j) == sgr_from(attr, q, j),
    decreases q.len() - j,
{
    if j < q.len() {
        let pq = p + q;
        let at = p.len() + j;
        assert(pq[at] == q[j]);
        assert(pq.subrange(at + 1, pq.len() as int) =~= q.subrange(j + 1, q.len() as int));
        let v = if q[j] is Some { q[j]->0 } else { 0 };
        if v == 38 || v == 48 {
            match super::model::extended_color_spec(q.subrange(j + 1, q.len() as int)) {
                Some((color, consumed)) => {
                    let next = if v == 38 {
                        CellAttributes { fg: color, ..attr }
                    } else {
                        CellAttributes { bg: color, ..attr }
                    };
                    lemma_sgr_shift(next, p, q, j + 1 + consumed);
                },
                None => {
                    lemma_sgr_shift(attr, p, q, j + 1);
                },
            }
        } else {
            let next = if v == 0 {
                CellAttributes::initial()
            } else if 30 <= v <= 37 {
                CellAttributes { fg: Color::Ansi { index: (v - 30) as u8, bright: false }, ..attr }
            } else if 40 <= v <= 47 {
                CellAttributes { bg: Color::Ansi { index: (v - 40) as u8, bright: false }, ..attr }
            } else if 90 <= v <= 97 {
                CellAttributes { fg: Color::Ansi { index: (v - 90) as u8, bright: true }, ..attr }
            } else if 100 <= v <= 107 {
                CellAttributes { bg: Color::Ansi { index: (v - 100) as u8, bright: true }, ..attr }
            } else if v == 39 {
                CellAttributes { fg: Color::DefaultFg, ..attr }
            } else if v == 49 {
                CellAttributes { bg: Color::DefaultBg, ..attr }
            } else {
                attr
            };
            lemma_sgr_shift(next, p, q, j + 1);
        }
    }
}

/// After a run of parameters without 38 or 48, a final 49 leaves the default background
/// and keeps the foreground and flags that the run gave.
pub proof fn lemma_sgr_49_restores_background(attr: CellAttributes, p: Seq<Option<usize>>)
    requires
        forall|i: int| 0 <= i < p.len() ==> #[trigger] p[i] != Some(38usize) && p[i] != Some(48usize),
    ensures
        sgr_from(attr, p.push(Some(49usize)), 0) == (CellAttributes {
            bg: Color::DefaultBg,
            ..sgr_from(attr, p, 0)
        }),
{
    lemma_sgr_runs_in_order(attr, p, seq![Some(49usize)]);
    assert(p.push(Some(49usize)) =~= p + seq![Some(49usize)]);
    lemma_sgr_one_parameter(sgr_from(attr, p, 0), Some(49usize));
}

/// The UTF-8 encoding of a character: one byte below 0x80, then two, three or four bytes,
/// a lead byte carrying the high bits and continuation bytes of six bits each.
pub open spec fn utf8_encoding(c: char) -> Seq<u8> {
    let v = c as u32;
    if v < 0x80 {
        seq![v as u8]
    } else if v < 0x800 {
        seq![(0xc0 | (v >> 6)) as u8, (0x80 | (v & 0x3f)) as u8]
    } else if v < 0x10000 {
        seq![
            (0xe0 | (v >> 12)) as u8,
            (0x80 | ((v >> 6) & 0x3f)) as u8,
            (0x80 | (v & 0x3f)) as u8,
        ]
    } else {
        seq![
            (0xf0 | (v >> 18)) as u8,
            (0x80 | ((v >> 12) & 0x3f)) as u8,
            (0x80 | ((v >> 6) & 0x3f)) as u8,
            (0x80 | (v & 0x3f)) as u8,
        ]
    }
}

/// A byte from 0x80 up in the ground state goes to the multi-byte decoder.
proof fn lemma_push_byte_ground_high(m: TerminalModel, b: u8)
    requires
        m.parser is Ground,
        b >= 0x80,
    ensures
        m.push_byte(b) == m.push_utf8_byte(b),
{
    reveal(TerminalModel::push_byte);
    assert(m.push_byte(b) == m.ground_byte(b));
}

/// The encoding of every character from 0x80 up is a well-formed multi-byte sequence
/// whose decoded value is the character.
proof fn lemma_utf8_encoding_decodes(c: char)
    requires
        c as u32 >= 0x80,
    ensures
        utf8_complete(utf8_encoding(c)),
        utf8_scalar(utf8_encoding(c)) == c as u32,
{
    let v = c as u32;
    let e = utf8_encoding(c);
    assert(v <= 0x10ffff);
    assert(v < 0xd800 || v >= 0xe000);
    if v < 0x800 {
        let b0 = (0xc0 | (v >> 6)) as u8;
        let b1 = (0x80 | (v & 0x3f)) as u8;
        assert(0xc2 <= b0 <= 0xdf && 0x80 <= b1 <= 0xbf && (b0 - 0xc0) * 64 + (b1 - 0x80) == v)
            by (bit_vector)
            requires
                0x80 <= v < 0x800,
                b0 == (0xc0 | (v >> 6)) as u8,
                b1 == (0x80 | (v & 0x3f)) as u8,
        ;
        assert(e[0] == b0 && e[1] == b1);
    } else if v < 0x10000 {
        let b0 = (0xe0 | (v >> 12)) as u8;
        let b1 = (0x80 | ((v >> 6) & 0x3f)) as u8;
        let b2 = (0x80 | (v & 0x3f)) as u8;
        assert(0xe0 <= b0 <= 0xef && 0x80 <= b1 <= 0xbf && 0x80 <= b2 <= 0xbf && (b0 - 0xe0)
            * 4096 + (b1 - 0x80) * 64 + (b2 - 0x80) == v && (b0 == 0xe0 ==> b1 >= 0xa0) && (b0
            == 0xed ==> b1 <= 0x9f)) by (bit_vector)
            requires
                0x800 <= v < 0x10000,
                v < 0xd800 || v >= 0xe000,
                b0 == (0xe0 | (v >> 12)) as u8,
                b1 == (0x80 | ((v >> 6) & 0x3f)) as u8,
                b2 == (0x80 | (v & 0x3f)) as u8,
        ;
        assert(e[0] == b0 && e[1] == b1 && e[2] == b2);
    } else {
        let b0 = (0xf0 | (v >> 18)) as u8;
        let b1 = (0x80 | ((v >> 12) & 0x3f)) as u8;
        let b2 = (0x80 | ((v >> 6) & 0x3f)) as u8;
        let b3 = (0x80 | (v & 0x3f)) as u8;
        assert(0xf0 <= b0 <= 0xf4 && 0x80 <= b1 <= 0xbf && 0x80 <= b2 <= 0xbf && 0x80 <= b3
            <= 0xbf && (b0 - 0xf0) * 262144 + (b1 - 0x80) * 4096 + (b2 - 0x80) * 64 + (b3 - 0x80)
            == v && (b0 == 0xf0 ==> b1 >= 0x90) && (b0 == 0xf4 ==> b1 <= 0x8f)) by (bit_vector)
            requires
                0x10000 <= v <= 0x10ffff,
                b0 == (0xf0 | (v >> 18)) as u8,
                b1 == (0x80 | ((v >> 12) & 0x3f)) as u8,
                b2 == (0x80 | ((v >> 6) & 0x3f)) as u8,
                b3 == (0x80 | (v & 0x3f)) as u8,
        ;
        assert(e[0] == b0 && e[1] == b1 && e[2] == b2 && e[3] == b3);
    }
}

/// From the ground state with nothing pending, each proper prefix of a well-formed
/// multi-byte sequence only waits in the pending bytes.
proof fn lemma_utf8_prefix_waits(m: TerminalModel, s: Seq<u8>, k: int)
    requires
        m.parser is Ground,
        m.utf8_buffer.len() == 0,
        utf8_complete(s),
        0 <= k < s.len(),
    ensures
        m.push_bytes(s.subrange(0, k)) == (TerminalModel { utf8_buffer: s.subrange(0, k), ..m }),
    decreases k,
{
    if k == 0 {
        assert(s.subrange(0, 0) =~= m.utf8_buffer);
        assert(m == (TerminalModel { utf8_buffer: s.subrange(0, 0), ..m }));
    } else {
        lemma_utf8_prefix_waits(m, s, k - 1);
        let before = TerminalModel { utf8_buffer: s.subrange(0, k - 1), ..m };
        lemma_push_bytes_snoc(m, s.subrange(0, k - 1), s[k - 1]);
        assert(s.subrange(0, k - 1).push(s[k - 1]) =~= s.subrange(0, k));
        lemma_push_byte_ground_high(before, s[k - 1]);
        let buf = s.subrange(0, k);
        assert(buf[0] == s[0]);
        assert(utf8_prefix(buf)) by {
            assert forall|i: int| 1 <= i < buf.len() implies super::model::utf8_follows(
                buf[0],
                i,
                #[trigger] buf[i],
            ) by {
                assert(buf[i] == s[i]);
            }
        }
        assert(s[k - 1] >= 0x80) by {
            if k - 1 == 0 {
            } else {
                assert(super::model::utf8_follows(s[0], k - 1, s[k - 1]));
            }
        }
    }
}

/// Output decodes UTF-8: feeding the encoding of a printable ASCII character (one byte)
/// or of any character from 0x80 up (two, three or four bytes) in the ground state with
/// nothing pending writes exactly that character, as writing it directly would.
pub proof fn lemma_utf8_character_is_written(m: TerminalModel, c: char)
    requires
        m.parser is Ground,
        m.utf8_buffer.len() == 0,
        c as u32 >= 0x80 || 0x20 <= c as u32 <= 0x7e,
    ensures
        m.push_bytes(utf8_encoding(c)) == m.write_char(c),
{
    if (c as u32) < 0x80 {
        let b = (c as u32) as u8;
        assert(utf8_encoding(c) =~= Seq::<u8>::empty().push(b));
        lemma_push_bytes_snoc(m, Seq::<u8>::empty(), b);
        assert(m.push_bytes(Seq::<u8>::empty()) == m);
        reveal(TerminalModel::push_byte);
        assert(m.push_byte(b) == m.ground_byte(b));
        assert(m.flush_utf8() == m);
        assert((b as char) == c);
    } else {
        let s = utf8_encoding(c);
        lemma_utf8_encoding_decodes(c);
        let k = s.len() - 1;
        lemma_utf8_prefix_waits(m, s, k);
        let before = TerminalModel { utf8_buffer: s.subrange(0, k), ..m };
        lemma_push_bytes_snoc(m, s.subrange(0, k), s[k]);
        assert(s.subrange(0, k).push(s[k]) =~= s);
        assert(s[k] >= 0x80) by {
            assert(super::model::utf8_follows(s[0], k, s[k]));
        }
        lemma_push_byte_ground_high(before, s[k]);
        assert(before.utf8_buffer.push(s[k]) =~= s);
        assert((TerminalModel { utf8_buffer: Seq::empty(), ..before }) == m) by {
            assert(m.utf8_buffer =~= Seq::<u8>::empty());
        }
        assert((c as u32) as char == c);
    }
}

/// Erasing in the line: mode 0 blanks the cursor's cell and those right of it, mode 1 the
/// cursor's cell and those left of it, mode 2 the whole row; other modes change no cell.
/// Other rows never change.
pub proof fn lemma_erase_in_line_blanks(m: TerminalModel, mode: usize)
    requires
        m.wf(),
    ensures
        ({
            let s = m.screen();
            let r = s.cursor_row as int;
            let c = s.cursor_col as int;
            let after = m.erase_in_line(mode).screen();
            &&& after.grid.len() == s.rows
            &&& forall|i: int| 0 <= i < s.rows && i != r ==> #[trigger] after.grid[i] == s.grid[i]
            &&& mode > 2 ==> after.grid == s.grid
            &&& mode <= 2 ==> after.grid[r].len() == s.cols
            &&& forall|j: int|
                0 <= j < s.cols && mode <= 2 ==> #[trigger] after.grid[r][j] == if (mode == 0
                    && j >= c) || (mode == 1 && j <= c) || mode == 2 {
                    TerminalCell::blank()
                } else {
                    s.grid[r][j]
                }
        }),
{
}

/// Erasing in the display: mode 0 blanks from the cursor to the end of the screen, mode 1
/// from the start of the screen to the cursor, mode 2 everything; other modes change no
/// cell.
pub proof fn lemma_erase_in_display_blanks(m: TerminalModel, mode: usize, i: int, j: int)
    requires
        m.wf(),
        0 <= i < m.screen().rows,
        0 <= j < m.screen().cols,
    ensures
        ({
            let s = m.screen();
            let r = s.cursor_row as int;
            let c = s.cursor_col as int;
            let after = m.erase_in_display(mode).screen();
            let before_cursor = i < r || (i == r && j <= c);
            let after_cursor = i > r || (i == r && j >= c);
            &&& after.grid[i][j] == if (mode == 0 && after_cursor) || (mode == 1 && before_cursor)
                || mode == 2 {
                TerminalCell::blank()
            } else {
                s.grid[i][j]
            }
        }),
{
    lemma_erase_in_line_blanks(m, 0);
    lemma_erase_in_line_blanks(m, 1);
    let s = m.screen();
    let r = s.cursor_row as int;
    if mode == 1 {
        let top = m.with_screen(
            super::types::ScreenModel {
                grid: Seq::new(
                    s.rows as nat,
                    |k: int|
                        if k < r {
                            super::types::blank_row(s.cols as nat)
                        } else {
                            s.grid[k]
                        },
                ),
                ..s
            },
        ).with_damage(
            if r > 0 {
                m.damage.mark_rows(0, (r - 1) as u16)
            } else {
                m.damage
            },
        );
        lemma_erase_in_line_blanks(top, 1);
    }
}

/// Inserting lines at a cursor row inside the scroll region `t..=b`: the `k` rows from the
/// cursor are blank, each row below them down to `b` holds the row `k` above it, and the
/// rows outside `r..=b` stay, where `k = min(max(count, 1), b - r + 1)`. With the cursor
/// outside the region nothing changes.
pub proof fn lemma_insert_lines_shifts_down(m: TerminalModel, count: u16, i: int)
    requires
        m.wf(),
        0 <= i < m.screen().rows,
    ensures
        ({
            let s = m.screen();
            let r = s.cursor_row as int;
            let b = s.scroll_bottom as int;
            let n = if count == 0 { 1int } else { count as int };
            let k = if n < b - r + 1 { n } else { b - r + 1 };
            let after = m.insert_lines(count).screen();
            &&& (r < s.scroll_top || r > b) ==> after.grid == s.grid
            &&& (s.scroll_top <= r <= b) ==> after.grid[i] == if r <= i < r + k {
                super::types::blank_row(s.cols as nat)
            } else if r + k <= i <= b {
                s.grid[i - k]
            } else {
                s.grid[i]
            }
        }),
{
}

/// Deleting lines at a cursor row inside the scroll region `t..=b`: each row from the
/// cursor down to `b - k` holds the row `k` below it, the last `k` rows of the region are
/// blank, and the rows outside `r..=b` stay, where `k = min(max(count, 1), b - r + 1)`.
/// With the cursor outside the region nothing changes.
pub proof fn lemma_delete_lines_shifts_up(m: TerminalModel, count: u16, i: int)
    requires
        m.wf(),
        0 <= i < m.screen().rows,
    ensures
        ({
            let s = m.screen();
            let r = s.cursor_row as int;
            let b = s.scroll_bottom as int;
            let n = if count == 0 { 1int } else { count as int };
            let k = if n < b - r + 1 { n } else { b - r + 1 };
            let after = m.delete_lines(count).screen();
            &&& (r < s.scroll_top || r > b) ==> after.grid == s.grid
            &&& (s.scroll_top <= r <= b) ==> after.grid[i] == if r <= i <= b - k {
                s.grid[i + k]
            } else if b - k < i <= b {
                super::types::blank_row(s.cols as nat)
            } else {
                s.grid[i]
            }
        }),
{
}

/// A line feed on the bottom row of a whole-screen region of the primary screen scrolls:
/// the top row moves into the history (which keeps its last `SCROLLBACK_CAPACITY` rows),
/// every other row moves up one, a blank row appears at the bottom, the cursor goes to the
/// first column of the bottom row, and the view returns to the live rows.
pub proof fn lemma_line_feed_scrolls_into_history(m: TerminalModel)
    requires
        m.wf(),
        m.active_screen == ActiveScreen::Primary,
        m.primary.scroll_top == 0,
        m.primary.scroll_bottom == m.primary.rows - 1,
        m.primary.cursor_row == m.primary.rows - 1,
    ensures
        ({
            let s = m.primary;
            let after = m.line_feed();
            let h = m.scrollback.push(s.grid[0]);
            &&& after.scrollback == if h.len() > super::model::SCROLLBACK_CAPACITY {
                h.drop_first()
            } else {
                h
            }
            &&& after.primary.grid.len() == s.rows
            &&& forall|i: int| 0 <= i < s.rows - 1 ==> #[trigger] after.primary.grid[i] == s.grid[i + 1]
            &&& after.primary.grid[s.rows - 1] == super::types::blank_row(s.cols as nat)
            &&& after.primary.cursor_row == s.rows - 1
            &&& after.primary.cursor_col == 0
            &&& after.viewport_offset == 0
        }),
{
    let s = m.primary;
    let h = m.scrollback.push(s.grid[0]);
    assert(m.scrollback + s.grid.subrange(0, 1) =~= h);
    if h.len() > super::model::SCROLLBACK_CAPACITY {
        assert(h.subrange(h.len() - m.scrollback_capacity, h.len() as int) =~= h.drop_first());
    }
}

/// Cursor positioning holds the cursor inside the grid: it goes to the requested row and
/// column, or to the last one where the request lies beyond it.
pub proof fn lemma_cursor_position_clamps(m: TerminalModel, row: u16, col: u16)
    requires
        m.wf(),
    ensures
        ({
            let s = m.screen();
            let after = m.set_cursor_position(row, col).screen();
            &&& after.cursor_row == if row < s.rows { row } else { (s.rows - 1) as u16 }
            &&& after.cursor_col == if col < s.cols { col } else { (s.cols - 1) as u16 }
            &&& after.grid == s.grid
        }),
{
}

} // verus!
