//! The mathematical model of the terminal and the meaning of every operation on it.
//!
//! Each executable operation of `TerminalBuffer` is specified as a function from the
//! model before the call to the model after it.
use vstd::prelude::*;

use super::types::{blank_row, fit_row, CellAttributes, ParserModel, ScreenModel, TerminalCell, TerminalModes};
use crate::cells::{ActiveScreen, Cell, Color, CursorState, DamageModel};

verus! {

/// How many rows of history the primary screen keeps.
pub const SCROLLBACK_CAPACITY: usize = 2000;

/// The longest parameter string that a control sequence accumulates.
pub const CSI_PARAMS_LIMIT: usize = 64;

/// The character written in place of malformed UTF-8.
pub open spec fn replacement_char() -> char {
    '\u{fffd}'
}

/// The smaller of two integers.
pub open spec fn min_int(a: int, b: int) -> int {
    if a <= b {
        a
    } else {
        b
    }
}

/// `v` held between `lo` and `hi`.
pub open spec fn clamp(v: int, lo: int, hi: int) -> int {
    if v < lo {
        lo
    } else if v > hi {
        hi
    } else {
        v
    }
}

/// `x - 1`, or 0 for 0.
pub open spec fn dec_or_zero(x: usize) -> usize {
    if x == 0 {
        0
    } else {
        (x - 1) as usize
    }
}

/// The last `cap` elements of `s`, or all of them when there are no more than `cap`.
pub open spec fn keep_last<T>(s: Seq<T>, cap: int) -> Seq<T> {
    if s.len() > cap {
        s.subrange(s.len() - cap, s.len() as int)
    } else {
        s
    }
}

// ---------------------------------------------------------------------------
// UTF-8 (Unicode, table 3-7 of well-formed byte sequences)
// ---------------------------------------------------------------------------

/// How many bytes a sequence starting with `b0` has; 0 when `b0` cannot start a
/// multi-byte sequence.
pub open spec fn utf8_width(b0: u8) -> int {
    if 0xc2 <= b0 <= 0xdf {
        2
    } else if 0xe0 <= b0 <= 0xef {
        3
    } else if 0xf0 <= b0 <= 0xf4 {
        4
    } else {
        0
    }
}

/// Whether `b` may stand at position `i` (1 to 3) of a sequence starting with `b0`.
pub open spec fn utf8_follows(b0: u8, i: int, b: u8) -> bool {
    if i == 1 && b0 == 0xe0 {
        0xa0 <= b <= 0xbf
    } else if i == 1 && b0 == 0xed {
        0x80 <= b <= 0x9f
    } else if i == 1 && b0 == 0xf0 {
        0x90 <= b <= 0xbf
    } else if i == 1 && b0 == 0xf4 {
        0x80 <= b <= 0x8f
    } else {
        0x80 <= b <= 0xbf
    }
}

/// `s` is a non-empty prefix of a well-formed multi-byte UTF-8 sequence.
pub open spec fn utf8_prefix(s: Seq<u8>) -> bool {
    &&& s.len() >= 1
    &&& utf8_width(s[0]) >= 2
    &&& s.len() <= utf8_width(s[0])
    &&& forall|i: int| 1 <= i < s.len() ==> utf8_follows(s[0], i, #[trigger] s[i])
}

/// `s` is a whole well-formed multi-byte UTF-8 sequence.
pub open spec fn utf8_complete(s: Seq<u8>) -> bool {
    utf8_prefix(s) && s.len() == utf8_width(s[0])
}

/// The bytes that wait for the rest of their character: nothing, or a proper prefix
/// of a well-formed sequence.
pub open spec fn utf8_pending(s: Seq<u8>) -> bool {
    s.len() == 0 || (utf8_prefix(s) && s.len() < utf8_width(s[0]))
}

/// The scalar value that a complete multi-byte sequence encodes.
pub open spec fn utf8_scalar(s: Seq<u8>) -> int {
    if s.len() == 2 {
        (s[0] - 0xc0) * 64 + (s[1] - 0x80)
    } else if s.len() == 3 {
        (s[0] - 0xe0) * 4096 + (s[1] - 0x80) * 64 + (s[2] - 0x80)
    } else {
        (s[0] - 0xf0) * 262144 + (s[1] - 0x80) * 4096 + (s[2] - 0x80) * 64 + (s[3] - 0x80)
    }
}

// ---------------------------------------------------------------------------
// Control sequence parameters
// ---------------------------------------------------------------------------

/// An ASCII decimal digit.
pub open spec fn is_digit(b: u8) -> bool {
    48 <= b <= 57
}

/// The value of a string of decimal digits.
pub open spec fn decimal_value(s: Seq<u8>) -> nat
    decreases s.len(),
{
    if s.len() == 0 {
        0
    } else {
        decimal_value(s.drop_last()) * 10 + (s.last() - 48) as nat
    }
}

/// The fields of a parameter string: the digits of the string split at each `;`,
/// every byte that is neither a digit nor `;` left out.
pub open spec fn csi_fields(s: Seq<u8>) -> Seq<Seq<u8>>
    decreases s.len(),
{
    if s.len() == 0 {
        seq![Seq::empty()]
    } else {
        let f = csi_fields(s.drop_last());
        let b = s.last();
        if b == 59 {
            f.push(Seq::empty())
        } else if is_digit(b) {
            f.update(f.len() - 1, f.last().push(b))
        } else {
            f
        }
    }
}

/// Whether the string holds any digit or `;`.
pub open spec fn has_param_bytes(s: Seq<u8>) -> bool {
    exists|i: int| 0 <= i < s.len() && (is_digit(#[trigger] s[i]) || s[i] == 59)
}

/// A field's value: absent when the field is empty or its value does not fit a `usize`.
pub open spec fn field_value(field: Seq<u8>) -> Option<usize> {
    if field.len() == 0 || decimal_value(field) > usize::MAX {
        None
    } else {
        Some(decimal_value(field) as usize)
    }
}

/// The parameters of a parameter string: none when it holds no digit and no `;`, else one
/// value per field.
pub open spec fn csi_params_spec(s: Seq<u8>) -> Seq<Option<usize>> {
    if !has_param_bytes(s) {
        Seq::empty()
    } else {
        csi_fields(s).map_values(|f: Seq<u8>| field_value(f))
    }
}

/// The parameters of a control sequence: whether it is private (starts with `?`), and
/// the parameters of the rest.
pub open spec fn parse_csi_spec(raw: Seq<u8>) -> (bool, Seq<Option<usize>>) {
    let private = raw.len() > 0 && raw[0] == 63;
    let body = if private {
        raw.drop_first()
    } else {
        raw
    };
    (private, csi_params_spec(body))
}

/// How many rows or columns a relative cursor move goes: its count, held at `i32::MAX`.
pub open spec fn move_count(count: usize) -> int {
    if count > i32::MAX {
        i32::MAX as int
    } else {
        count as int
    }
}

/// Parameter `index`, or `default` when it is missing or empty.
pub open spec fn param_or_spec(params: Seq<Option<usize>>, index: int, default: usize) -> usize {
    if 0 <= index < params.len() && params[index] is Some {
        params[index]->0
    } else {
        default
    }
}

// ---------------------------------------------------------------------------
// Colors (SGR)
// ---------------------------------------------------------------------------

/// Color `index` of the 256-color palette.
pub open spec fn ansi_256_spec(index: u8) -> Color {
    if index < 8 {
        Color::Ansi { index, bright: false }
    } else if index < 16 {
        Color::Ansi { index: (index - 8) as u8, bright: true }
    } else if index < 232 {
        let cube = (index - 16) as int;
        Color::Cube {
            red_level: (cube / 36) as u8,
            green_level: ((cube % 36) / 6) as u8,
            blue_level: (cube % 6) as u8,
        }
    } else {
        Color::Gray { level: (index - 232) as u8 }
    }
}

/// An extended color (`5;n` from the palette, `2;r;g;b` direct) at the start of the
/// parameters, with the number of parameters it takes.
pub open spec fn extended_color_spec(params: Seq<Option<usize>>) -> Option<(Color, usize)> {
    if params.len() == 0 || params[0] is None {
        None
    } else if params[0]->0 == 5 {
        if params.len() > 1 && params[1] is Some {
            Some((ansi_256_spec((params[1]->0 % 256) as u8), 2))
        } else {
            None
        }
    } else if params[0]->0 == 2 {
        if params.len() > 3 && params[1] is Some && params[2] is Some && params[3] is Some {
            Some(
                (
                    Color::Rgb { red: params[1]->0, green: params[2]->0, blue: params[3]->0 },
                    4,
                ),
            )
        } else {
            None
        }
    } else {
        None
    }
}

/// Applies the graphic-rendition parameters from `index` on.
pub open spec fn sgr_from(attr: CellAttributes, params: Seq<Option<usize>>, index: int) -> CellAttributes
    decreases params.len() - index,
{
    if index < 0 || index >= params.len() {
        attr
    } else {
        let p = if params[index] is Some {
            params[index]->0
        } else {
            0
        };
        if p == 0 {
            sgr_from(CellAttributes::initial(), params, index + 1)
        } else if 30 <= p <= 37 {
            sgr_from(
                CellAttributes { fg: Color::Ansi { index: (p - 30) as u8, bright: false }, ..attr },
                params,
                index + 1,
            )
        } else if 40 <= p <= 47 {
            sgr_from(
                CellAttributes { bg: Color::Ansi { index: (p - 40) as u8, bright: false }, ..attr },
                params,
                index + 1,
            )
        } else if 90 <= p <= 97 {
            sgr_from(
                CellAttributes { fg: Color::Ansi { index: (p - 90) as u8, bright: true }, ..attr },
                params,
                index + 1,
            )
        } else if 100 <= p <= 107 {
            sgr_from(
                CellAttributes { bg: Color::Ansi { index: (p - 100) as u8, bright: true }, ..attr },
                params,
                index + 1,
            )
        } else if p == 39 {
            sgr_from(CellAttributes { fg: Color::DefaultFg, ..attr }, params, index + 1)
        } else if p == 49 {
            sgr_from(CellAttributes { bg: Color::DefaultBg, ..attr }, params, index + 1)
        } else if p == 38 || p == 48 {
            match extended_color_spec(params.subrange(index + 1, params.len() as int)) {
                Some((color, consumed)) => sgr_from(
                    if p == 38 {
                        CellAttributes { fg: color, ..attr }
                    } else {
                        CellAttributes { bg: color, ..attr }
                    },
                    params,
                    index + 1 + consumed,
                ),
                None => sgr_from(attr, params, index + 1),
            }
        } else {
            sgr_from(attr, params, index + 1)
        }
    }
}

/// The attributes after a graphic-rendition sequence; no parameters means a reset.
pub open spec fn sgr_spec(attr: CellAttributes, params: Seq<Option<usize>>) -> CellAttributes {
    if params.len() == 0 {
        sgr_from(attr, seq![Some(0usize)], 0)
    } else {
        sgr_from(attr, params, 0)
    }
}

// ---------------------------------------------------------------------------
// The terminal
// ---------------------------------------------------------------------------

/// The whole state of a terminal.
#[verifier::ext_equal]
pub struct TerminalModel {
    pub primary: ScreenModel,
    pub alternate: ScreenModel,
    pub active_screen: ActiveScreen,
    pub scrollback: Seq<Seq<TerminalCell>>,
    pub scrollback_capacity: usize,
    pub viewport_offset: usize,
    pub parser: ParserModel,
    pub utf8_buffer: Seq<u8>,
    pub current_attr: CellAttributes,
    pub modes: TerminalModes,
    pub damage: DamageModel,
}

/// The mathematical content of a render snapshot.
pub struct SnapshotModel {
    pub cols: u16,
    pub rows: u16,
    pub cells: Seq<Cell>,
    pub cursor: Option<CursorState>,
    pub active_screen: ActiveScreen,
    pub damage: DamageModel,
}

impl TerminalModel {
    /// The invariant every terminal keeps.
    pub open spec fn wf(self) -> bool {
        &&& self.primary.wf()
        &&& self.alternate.wf()
        &&& self.primary.cols == self.alternate.cols
        &&& self.primary.rows == self.alternate.rows
        &&& self.scrollback_capacity == SCROLLBACK_CAPACITY
        &&& self.scrollback.len() <= self.scrollback_capacity
        &&& self.viewport_offset <= self.scrollback.len()
        &&& utf8_pending(self.utf8_buffer)
        &&& (self.parser matches ParserModel::Csi(bytes) ==> bytes.len() <= CSI_PARAMS_LIMIT)
    }

    /// The screen being shown.
    pub open spec fn screen(self) -> ScreenModel {
        match self.active_screen {
            ActiveScreen::Primary => self.primary,
            ActiveScreen::Alternate => self.alternate,
        }
    }

    /// The terminal with the shown screen replaced.
    pub open spec fn with_screen(self, s: ScreenModel) -> TerminalModel {
        match self.active_screen {
            ActiveScreen::Primary => TerminalModel { primary: s, ..self },
            ActiveScreen::Alternate => TerminalModel { alternate: s, ..self },
        }
    }

    /// The width of the shown screen.
    pub open spec fn cols(self) -> u16 {
        self.screen().cols
    }

    /// The height of the shown screen.
    pub open spec fn rows(self) -> u16 {
        self.screen().rows
    }

    /// The terminal with its damage replaced.
    pub open spec fn with_damage(self, damage: DamageModel) -> TerminalModel {
        TerminalModel { damage, ..self }
    }

    /// The terminal with the cursor marked dirty.
    pub open spec fn dirty_cursor(self) -> TerminalModel {
        self.with_damage(self.damage.mark_cursor_dirty())
    }

    /// The shown screen with no pending wrap.
    pub open spec fn no_wrap(self) -> TerminalModel {
        self.with_screen(ScreenModel { wrap_pending: false, ..self.screen() })
    }

    /// A new terminal of `max(cols, 1)` by `max(rows, 1)` cells that asks for a full redraw.
    pub open spec fn initial(cols: u16, rows: u16) -> TerminalModel {
        TerminalModel {
            primary: ScreenModel::fresh(cols, rows),
            alternate: ScreenModel::fresh(cols, rows),
            active_screen: ActiveScreen::Primary,
            scrollback: Seq::empty(),
            scrollback_capacity: SCROLLBACK_CAPACITY,
            viewport_offset: 0,
            parser: ParserModel::Ground,
            utf8_buffer: Seq::empty(),
            current_attr: CellAttributes::initial(),
            modes: TerminalModes::initial(),
            damage: DamageModel::empty().mark_full_rebuild().mark_all_rows(rows),
        }
    }

    /// Both screens resized without reflow and the history rows fitted to the new width;
    /// a resize to the current size changes nothing.
    pub open spec fn resize(self, cols: u16, rows: u16) -> TerminalModel {
        let c = if cols == 0 { 1u16 } else { cols };
        let r = if rows == 0 { 1u16 } else { rows };
        if self.primary.cols == c && self.primary.rows == r {
            self
        } else {
            TerminalModel {
                primary: self.primary.resized(cols, rows),
                alternate: self.alternate.resized(cols, rows),
                scrollback: Seq::new(
                    self.scrollback.len(),
                    |i: int| fit_row(self.scrollback[i], cols as nat),
                ),
                viewport_offset: if self.viewport_offset <= self.scrollback.len() {
                    self.viewport_offset
                } else {
                    self.scrollback.len() as usize
                },
                damage: self.damage.mark_full_rebuild().mark_all_rows(r).mark_cursor_dirty(),
                ..self
            }
        }
    }

    /// Scrolls the view back `offset` rows into history (no further than there is
    /// history); a change asks for a full redraw.
    pub open spec fn set_viewport_offset(self, offset: usize) -> TerminalModel {
        let next = if offset <= self.scrollback.len() {
            offset
        } else {
            self.scrollback.len() as usize
        };
        if self.viewport_offset != next {
            TerminalModel {
                viewport_offset: next,
                damage: self.damage.mark_full_rebuild().mark_cursor_dirty(),
                ..self
            }
        } else {
            self
        }
    }

    /// The rows on display: the alternate screen as it is, or, on the primary screen,
    /// the window of history plus live rows that ends `viewport_offset` rows above the
    /// bottom, history rows fitted to the screen width.
    pub open spec fn visible_rows(self) -> Seq<Seq<TerminalCell>> {
        let s = self.screen();
        if self.active_screen == ActiveScreen::Alternate {
            s.grid
        } else {
            let h = self.scrollback.len() as int;
            let start = h - self.viewport_offset;
            Seq::new(
                s.rows as nat,
                |i: int|
                    if start + i < h {
                        fit_row(self.scrollback[start + i], s.cols as nat)
                    } else {
                        s.grid[start + i - h]
                    },
            )
        }
    }

    /// The cursor as drawn: clamped into the grid and visible when the mode allows it,
    /// the blink phase shows it, and the view is not scrolled back into history.
    pub open spec fn snapshot_cursor(self, blink_visible: bool) -> CursorState {
        let s = self.screen();
        CursorState {
            row: s.cursor_row,
            col: if s.cursor_col < s.cols { s.cursor_col } else { (s.cols - 1) as u16 },
            visible: self.modes.cursor_visible && blink_visible && (self.active_screen
                == ActiveScreen::Alternate || self.viewport_offset == 0),
        }
    }

    /// The snapshot holds the visible rows in row-major order, the drawn cursor, the shown
    /// screen and the damage collected so far.
    pub open spec fn snapshot_matches(self, blink_visible: bool, snap: SnapshotModel) -> bool {
        let rows = self.visible_rows();
        &&& snap.cols == self.cols()
        &&& snap.rows == self.rows()
        &&& snap.cells.len() == snap.rows * snap.cols
        &&& forall|r: int, c: int|
            0 <= r < snap.rows && 0 <= c < snap.cols ==> #[trigger] snap.cells[r * snap.cols + c]
                == rows[r][c].to_cell()
        &&& snap.cursor == Some(self.snapshot_cursor(blink_visible))
        &&& snap.active_screen == self.active_screen
        &&& snap.damage == self.damage
    }

    /// The live-screen snapshot holds the shown screen's grid in row-major order, its
    /// cursor clamped into the grid and always visible, and a request for a full rebuild.
    pub open spec fn state_matches(self, snap: SnapshotModel) -> bool {
        let s = self.screen();
        &&& snap.cols == s.cols
        &&& snap.rows == s.rows
        &&& snap.cells.len() == snap.rows * snap.cols
        &&& forall|r: int, c: int|
            0 <= r < snap.rows && 0 <= c < snap.cols ==> #[trigger] snap.cells[r * snap.cols + c]
                == s.grid[r][c].to_cell()
        &&& snap.cursor == Some(CursorState { visible: true, ..self.snapshot_cursor(true) })
        &&& snap.active_screen == self.active_screen
        &&& snap.damage == DamageModel { full_rebuild: true, ..DamageModel::empty() }
    }

    // ----- cursor motion -----

    /// Back to the first column (CR).
    pub open spec fn carriage_return(self) -> TerminalModel {
        self.with_screen(
            ScreenModel { cursor_col: 0, wrap_pending: false, ..self.screen() },
        ).dirty_cursor()
    }

    /// Moves down a row, scrolling the region up at its bottom.
    pub open spec fn index_down(self) -> TerminalModel {
        let s = self.screen();
        if s.cursor_row == s.scroll_bottom {
            self.scroll_up(1)
        } else {
            self.with_screen(
                ScreenModel {
                    cursor_row: min_int(s.cursor_row + 1, s.rows - 1) as u16,
                    ..s
                },
            )
        }
    }

    /// Carries out a pending wrap: the first column of the next line.
    pub open spec fn wrap_to_next_line(self) -> TerminalModel {
        self.with_screen(
            ScreenModel { wrap_pending: false, cursor_col: 0, ..self.screen() },
        ).index_down()
    }

    /// A line feed (LF, VT, FF), which also returns to the first column.
    pub open spec fn line_feed(self) -> TerminalModel {
        self.wrap_to_next_line().dirty_cursor()
    }

    /// Next line (`ESC E`).
    pub open spec fn next_line(self) -> TerminalModel {
        let m = self.line_feed();
        m.with_screen(ScreenModel { cursor_col: 0, ..m.screen() }).dirty_cursor()
    }

    /// Moves up a row, scrolling the region down at its top.
    pub open spec fn reverse_index(self) -> TerminalModel {
        let m = self.no_wrap();
        let s = m.screen();
        let moved = if s.cursor_row == s.scroll_top {
            m.scroll_down(1)
        } else {
            m.with_screen(
                ScreenModel {
                    cursor_row: if s.cursor_row == 0 { 0 } else { (s.cursor_row - 1) as u16 },
                    ..s
                },
            )
        };
        moved.dirty_cursor()
    }

    /// One column left, stopping at the first (BS, DEL).
    pub open spec fn backspace(self) -> TerminalModel {
        let s = self.screen();
        self.with_screen(
            ScreenModel {
                wrap_pending: false,
                cursor_col: if s.cursor_col == 0 { 0 } else { (s.cursor_col - 1) as u16 },
                ..s
            },
        ).dirty_cursor()
    }

    /// Advances to the next multiple of 8, no further than the last column.
    pub open spec fn tab(self) -> TerminalModel {
        let s = self.screen();
        let next_stop = (s.cursor_col / 8 + 1) * 8;
        self.with_screen(
            ScreenModel {
                cursor_col: min_int(next_stop, s.cols - 1) as u16,
                wrap_pending: false,
                ..s
            },
        ).dirty_cursor()
    }

    /// Moves the cursor by the given rows and columns, held inside the grid.
    pub open spec fn move_cursor_relative(self, row_delta: int, col_delta: int) -> TerminalModel {
        let s = self.screen();
        self.with_screen(
            ScreenModel {
                cursor_row: clamp(s.cursor_row + row_delta, 0, s.rows - 1) as u16,
                cursor_col: clamp(s.cursor_col + col_delta, 0, s.cols - 1) as u16,
                wrap_pending: false,
                ..s
            },
        ).dirty_cursor()
    }

    /// Puts the cursor at a position, held inside the grid.
    pub open spec fn set_cursor_position(self, row: u16, col: u16) -> TerminalModel {
        let s = self.screen();
        self.with_screen(
            ScreenModel {
                cursor_row: min_int(row as int, s.rows - 1) as u16,
                cursor_col: min_int(col as int, s.cols - 1) as u16,
                wrap_pending: false,
                ..s
            },
        ).dirty_cursor()
    }

    /// Puts the cursor on a row, held inside the grid.
    pub open spec fn set_cursor_row(self, row: u16) -> TerminalModel {
        let s = self.screen();
        self.with_screen(
            ScreenModel {
                cursor_row: min_int(row as int, s.rows - 1) as u16,
                wrap_pending: false,
                ..s
            },
        ).dirty_cursor()
    }

    /// Puts the cursor in a column, held inside the grid.
    pub open spec fn set_cursor_col(self, col: u16) -> TerminalModel {
        let s = self.screen();
        self.with_screen(
            ScreenModel {
                cursor_col: min_int(col as int, s.cols - 1) as u16,
                wrap_pending: false,
                ..s
            },
        ).dirty_cursor()
    }

    /// Remembers the cursor position of the shown screen.
    pub open spec fn save_cursor(self) -> TerminalModel {
        let s = self.screen();
        self.with_screen(ScreenModel { saved_cursor: Some((s.cursor_row, s.cursor_col)), ..s })
    }

    /// Returns to the remembered position, if there is one.
    pub open spec fn restore_cursor(self) -> TerminalModel {
        match self.screen().saved_cursor {
            Some((row, col)) => self.set_cursor_position(row, col),
            None => self,
        }
    }

    // ----- writing -----

    /// Writes a character with the current attributes at the cursor, first wrapping to the
    /// next line when a wrap is pending; the cursor advances, or a wrap becomes pending in
    /// the last column. Writing returns the view to the live screen.
    pub open spec fn write_char(self, ch: char) -> TerminalModel {
        let m = if self.screen().wrap_pending {
            self.wrap_to_next_line()
        } else {
            self
        };
        let s = m.screen();
        let cell = TerminalCell {
            ch,
            fg: m.current_attr.fg,
            bg: m.current_attr.bg,
            flags: m.current_attr.flags,
        };
        let written = s.with_cell(s.cursor_row as int, s.cursor_col as int, cell);
        let moved = if s.cursor_col + 1 >= s.cols {
            ScreenModel { wrap_pending: true, ..written }
        } else {
            ScreenModel { cursor_col: (s.cursor_col + 1) as u16, ..written }
        };
        TerminalModel {
            viewport_offset: 0,
            damage: m.damage.mark_row(s.cursor_row).mark_cursor_dirty(),
            ..m.with_screen(moved)
        }
    }

    // ----- erasing -----

    /// Erases in the cursor's line: from the cursor on (0), up to the cursor (1), or all
    /// of it (2); other modes erase nothing.
    pub open spec fn erase_in_line(self, mode: usize) -> TerminalModel {
        let s = self.screen();
        let row = s.cursor_row;
        let col = s.cursor_col as int;
        let line = s.grid[row as int];
        let erased = if mode == 0 {
            self.with_screen(
                s.with_row(
                    row as int,
                    Seq::new(
                        s.cols as nat,
                        |c: int|
                            if c >= col {
                                TerminalCell::blank()
                            } else {
                                line[c]
                            },
                    ),
                ),
            ).with_damage(self.damage.mark_row(row))
        } else if mode == 1 {
            self.with_screen(
                s.with_row(
                    row as int,
                    Seq::new(
                        s.cols as nat,
                        |c: int|
                            if c <= col {
                                TerminalCell::blank()
                            } else {
                                line[c]
                            },
                    ),
                ),
            ).with_damage(self.damage.mark_row(row))
        } else if mode == 2 {
            self.with_screen(s.with_row(row as int, blank_row(s.cols as nat))).with_damage(
                self.damage.mark_row(row),
            )
        } else {
            self
        };
        erased.no_wrap()
    }

    /// Erases in the screen: from the cursor on (0), up to the cursor (1), or all of it
    /// (2); other modes erase nothing.
    pub open spec fn erase_in_display(self, mode: usize) -> TerminalModel {
        let s = self.screen();
        let row = s.cursor_row as int;
        let erased = if mode == 0 {
            let m = self.erase_in_line(0);
            let ms = m.screen();
            m.with_screen(
                ScreenModel {
                    grid: Seq::new(
                        ms.rows as nat,
                        |r: int|
                            if r > row {
                                blank_row(ms.cols as nat)
                            } else {
                                ms.grid[r]
                            },
                    ),
                    ..ms
                },
            ).with_damage(m.damage.mark_rows((row + 1) as u16, (ms.rows - 1) as u16))
        } else if mode == 1 {
            let m = self.with_screen(
                ScreenModel {
                    grid: Seq::new(
                        s.rows as nat,
                        |r: int|
                            if r < row {
                                blank_row(s.cols as nat)
                            } else {
                                s.grid[r]
                            },
                    ),
                    ..s
                },
            ).with_damage(
                if row > 0 {
                    self.damage.mark_rows(0, (row - 1) as u16)
                } else {
                    self.damage
                },
            );
            m.erase_in_line(1)
        } else if mode == 2 {
            self.with_screen(
                ScreenModel {
                    grid: Seq::new(s.rows as nat, |r: int| blank_row(s.cols as nat)),
                    ..s
                },
            ).with_damage(self.damage.mark_all_rows(s.rows))
        } else {
            self
        };
        erased.no_wrap()
    }

    /// How many cells an insert or delete of `count` characters moves: at least one, and
    /// no more than there are from the cursor to the end of the line.
    pub open spec fn char_shift(self, count: u16) -> int {
        let s = self.screen();
        min_int(if count == 0 { 1 } else { count as int }, s.cols - s.cursor_col)
    }

    /// Inserts blank cells at the cursor, pushing the rest of the line right.
    pub open spec fn insert_chars(self, count: u16) -> TerminalModel {
        let s = self.screen();
        let row = s.cursor_row;
        let col = s.cursor_col as int;
        let n = self.char_shift(count);
        let line = s.grid[row as int];
        TerminalModel {
            damage: self.damage.mark_row(row),
            ..self.with_screen(
                ScreenModel {
                    wrap_pending: false,
                    ..s.with_row(
                        row as int,
                        Seq::new(
                            s.cols as nat,
                            |c: int|
                                if c < col {
                                    line[c]
                                } else if c < col + n {
                                    TerminalCell::blank()
                                } else {
                                    line[c - n]
                                },
                        ),
                    )
                },
            )
        }
    }

    /// Deletes cells at the cursor, pulling the rest of the line left.
    pub open spec fn delete_chars(self, count: u16) -> TerminalModel {
        let s = self.screen();
        let row = s.cursor_row;
        let col = s.cursor_col as int;
        let n = self.char_shift(count);
        let line = s.grid[row as int];
        TerminalModel {
            damage: self.damage.mark_row(row),
            ..self.with_screen(
                ScreenModel {
                    wrap_pending: false,
                    ..s.with_row(
                        row as int,
                        Seq::new(
                            s.cols as nat,
                            |c: int|
                                if c < col {
                                    line[c]
                                } else if c < s.cols - n {
                                    line[c + n]
                                } else {
                                    TerminalCell::blank()
                                },
                        ),
                    )
                },
            )
        }
    }

    // ----- scrolling -----

    /// Scrolls rows `top..=bottom` up by `count` (no more than the region's height). On the
    /// primary screen with a whole-screen region, the rows that leave the top move into the
    /// history, which keeps its last `scrollback_capacity` rows, and the view returns to the
    /// live screen.
    pub open spec fn scroll_up_in_region(self, top: u16, bottom: u16, count: u16) -> TerminalModel {
        let height = bottom - top + 1;
        let n = min_int(count as int, height);
        if n <= 0 {
            self
        } else if self.active_screen == ActiveScreen::Primary && top == 0 && bottom
            == self.primary.rows - 1 {
            TerminalModel {
                primary: self.primary.scrolled_up(0, bottom as int, n),
                scrollback: keep_last(
                    self.scrollback + self.primary.grid.subrange(0, n),
                    self.scrollback_capacity as int,
                ),
                viewport_offset: 0,
                damage: self.damage.mark_all_rows(self.primary.rows),
                ..self
            }
        } else {
            self.with_screen(self.screen().scrolled_up(top as int, bottom as int, n)).with_damage(
                self.damage.mark_rows(top, bottom),
            )
        }
    }

    /// Scrolls rows `top..=bottom` down by `count` (no more than the region's height).
    pub open spec fn scroll_down_in_region(self, top: u16, bottom: u16, count: u16) -> TerminalModel {
        let height = bottom - top + 1;
        let n = min_int(count as int, height);
        if n <= 0 {
            self
        } else {
            self.with_screen(self.screen().scrolled_down(top as int, bottom as int, n)).with_damage(
                self.damage.mark_rows(top, bottom),
            )
        }
    }

    /// Scrolls the scroll region up by `count` rows, at least one.
    pub open spec fn scroll_up(self, count: u16) -> TerminalModel {
        let s = self.screen();
        self.scroll_up_in_region(
            s.scroll_top,
            s.scroll_bottom,
            if count == 0 {
                1
            } else {
                count
            },
        )
    }

    /// Scrolls the scroll region down by `count` rows, at least one.
    pub open spec fn scroll_down(self, count: u16) -> TerminalModel {
        let s = self.screen();
        self.scroll_down_in_region(
            s.scroll_top,
            s.scroll_bottom,
            if count == 0 {
                1
            } else {
                count
            },
        )
    }

    /// Inserts blank lines at the cursor row, inside the scroll region only.
    pub open spec fn insert_lines(self, count: u16) -> TerminalModel {
        let s = self.screen();
        if s.cursor_row < s.scroll_top || s.cursor_row > s.scroll_bottom {
            self
        } else {
            self.scroll_down_in_region(
                s.cursor_row,
                s.scroll_bottom,
                if count == 0 {
                    1
                } else {
                    count
                },
            ).no_wrap()
        }
    }

    /// Deletes lines at the cursor row, inside the scroll region only.
    pub open spec fn delete_lines(self, count: u16) -> TerminalModel {
        let s = self.screen();
        if s.cursor_row < s.scroll_top || s.cursor_row > s.scroll_bottom {
            self
        } else {
            self.scroll_up_in_region(
                s.cursor_row,
                s.scroll_bottom,
                if count == 0 {
                    1
                } else {
                    count
                },
            ).no_wrap()
        }
    }

    /// Sets the scroll region, falling back to the whole screen for an invalid one, and
    /// homes the cursor.
    pub open spec fn set_scroll_region(self, top: u16, bottom: u16) -> TerminalModel {
        let s = self.screen();
        let valid = top < bottom && bottom < s.rows;
        self.with_screen(
            ScreenModel {
                scroll_top: if valid { top } else { 0 },
                scroll_bottom: if valid { bottom } else { (s.rows - 1) as u16 },
                ..s
            },
        ).set_cursor_position(0, 0)
    }

    // ----- screens and modes -----

    /// Shows the alternate screen, cleared, unless it is already shown.
    pub open spec fn enter_alternate_screen(self) -> TerminalModel {
        if self.active_screen == ActiveScreen::Alternate {
            self
        } else {
            TerminalModel {
                alternate: self.alternate.cleared(),
                active_screen: ActiveScreen::Alternate,
                damage: self.damage.mark_full_rebuild().mark_all_rows(
                    self.alternate.rows,
                ).mark_cursor_dirty(),
                ..self
            }
        }
    }

    /// Shows the primary screen again, back at the live rows, unless it is already shown.
    pub open spec fn exit_alternate_screen(self) -> TerminalModel {
        if self.active_screen == ActiveScreen::Primary {
            self
        } else {
            TerminalModel {
                active_screen: ActiveScreen::Primary,
                viewport_offset: 0,
                damage: self.damage.mark_full_rebuild().mark_all_rows(
                    self.primary.rows,
                ).mark_cursor_dirty(),
                ..self
            }
        }
    }

    /// One DEC private mode set (`enabled`) or reset.
    pub open spec fn private_mode(self, param: usize, enabled: bool) -> TerminalModel {
        if param == 47 || param == 1047 || param == 1049 {
            if enabled {
                self.enter_alternate_screen()
            } else {
                self.exit_alternate_screen()
            }
        } else if param == 1048 {
            if enabled {
                self.save_cursor()
            } else {
                self.restore_cursor()
            }
        } else if param == 25 {
            TerminalModel { modes: TerminalModes { cursor_visible: enabled, ..self.modes }, ..self }
        } else if param == 2004 {
            TerminalModel { modes: TerminalModes { bracketed_paste: enabled, ..self.modes }, ..self }
        } else if param == 1 {
            TerminalModel {
                modes: TerminalModes { application_cursor: enabled, ..self.modes },
                ..self
            }
        } else if param == 6 {
            TerminalModel { modes: TerminalModes { origin_mode: enabled, ..self.modes }, ..self }
        } else {
            self
        }
    }

    /// The private modes of a sequence, applied in order; empty fields are skipped.
    pub open spec fn set_private_modes(self, params: Seq<Option<usize>>, enabled: bool) -> TerminalModel
        decreases params.len(),
    {
        if params.len() == 0 {
            self
        } else {
            let m = match params[0] {
                Some(p) => self.private_mode(p, enabled),
                None => self,
            };
            m.set_private_modes(params.drop_first(), enabled)
        }
    }

    /// Applies a graphic-rendition sequence to the current attributes.
    pub open spec fn set_graphics_rendition(self, params: Seq<Option<usize>>) -> TerminalModel {
        TerminalModel { current_attr: sgr_spec(self.current_attr, params), ..self }
    }

    /// Full reset: both screens cleared, primary shown, history dropped, parser and
    /// attributes back to their initial state; the modes stay.
    pub open spec fn reset(self) -> TerminalModel {
        TerminalModel {
            primary: self.primary.cleared(),
            alternate: self.alternate.cleared(),
            active_screen: ActiveScreen::Primary,
            scrollback: Seq::empty(),
            viewport_offset: 0,
            utf8_buffer: Seq::empty(),
            parser: ParserModel::Ground,
            current_attr: CellAttributes::initial(),
            damage: self.damage.mark_full_rebuild().mark_all_rows(
                self.primary.rows,
            ).mark_cursor_dirty(),
            ..self
        }
    }

    // ----- control sequences -----

    /// Runs a complete control sequence; every sequence ends any pending wrap.
    #[verifier::opaque]
    pub open spec fn execute_csi(self, final_byte: u8, raw: Seq<u8>) -> TerminalModel {
        let parsed = parse_csi_spec(raw);
        let private = parsed.0;
        let ps = parsed.1;
        let p0 = param_or_spec(ps, 0, 1);
        let m = if !private && final_byte == 65 {
            self.move_cursor_relative(-(move_count(p0)), 0)
        } else if !private && final_byte == 66 {
            self.move_cursor_relative(move_count(p0), 0)
        } else if !private && final_byte == 67 {
            self.move_cursor_relative(0, move_count(p0))
        } else if !private && final_byte == 68 {
            self.move_cursor_relative(0, -(move_count(p0)))
        } else if !private && final_byte == 71 {
            self.set_cursor_col(dec_or_zero(p0) as u16)
        } else if !private && final_byte == 100 {
            self.set_cursor_row(dec_or_zero(p0) as u16)
        } else if !private && (final_byte == 72 || final_byte == 102) {
            self.set_cursor_position(
                dec_or_zero(p0) as u16,
                dec_or_zero(param_or_spec(ps, 1, 1)) as u16,
            )
        } else if !private && final_byte == 74 {
            self.erase_in_display(param_or_spec(ps, 0, 0))
        } else if !private && final_byte == 75 {
            self.erase_in_line(param_or_spec(ps, 0, 0))
        } else if !private && final_byte == 64 {
            self.insert_chars(p0 as u16)
        } else if !private && final_byte == 80 {
            self.delete_chars(p0 as u16)
        } else if !private && final_byte == 76 {
            self.insert_lines(p0 as u16)
        } else if !private && final_byte == 77 {
            self.delete_lines(p0 as u16)
        } else if !private && final_byte == 109 {
            self.set_graphics_rendition(ps)
        } else if !private && final_byte == 114 {
            self.set_scroll_region(
                dec_or_zero(p0) as u16,
                dec_or_zero(param_or_spec(ps, 1, self.rows() as usize)) as u16,
            )
        } else if !private && final_byte == 115 {
            self.save_cursor()
        } else if !private && final_byte == 117 {
            self.restore_cursor()
        } else if private && final_byte == 104 {
            self.set_private_modes(ps, true)
        } else if private && final_byte == 108 {
            self.set_private_modes(ps, false)
        } else {
            self
        };
        m.no_wrap()
    }

    // ----- UTF-8 -----

    /// Writes a replacement character for bytes that never completed a character.
    pub open spec fn flush_utf8(self) -> TerminalModel {
        if self.utf8_buffer.len() > 0 {
            TerminalModel { utf8_buffer: Seq::empty(), ..self }.write_char(replacement_char())
        } else {
            self
        }
    }

    /// Adds a byte of a multi-byte character: a completed character is written, a malformed
    /// sequence is written as one replacement character, and a valid incomplete one waits.
    pub open spec fn push_utf8_byte(self, byte: u8) -> TerminalModel {
        let buf = self.utf8_buffer.push(byte);
        if utf8_complete(buf) {
            TerminalModel { utf8_buffer: Seq::empty(), ..self }.write_char(
                (utf8_scalar(buf) as u32) as char,
            )
        } else if utf8_prefix(buf) {
            TerminalModel { utf8_buffer: buf, ..self }
        } else {
            TerminalModel { utf8_buffer: Seq::empty(), ..self }.write_char(replacement_char())
        }
    }

    // ----- the parser -----

    /// The terminal with its parser state replaced.
    pub open spec fn with_parser(self, parser: ParserModel) -> TerminalModel {
        TerminalModel { parser, ..self }
    }

    /// A byte outside any sequence: a control, a printable character, or part of a
    /// multi-byte character.
    pub open spec fn ground_byte(self, byte: u8) -> TerminalModel {
        if byte == 0x1b {
            self.flush_utf8().with_parser(ParserModel::Escape)
        } else if byte == 0x0d {
            self.flush_utf8().carriage_return()
        } else if byte == 0x0a || byte == 0x0b || byte == 0x0c {
            self.flush_utf8().line_feed()
        } else if byte == 0x08 || byte == 0x7f {
            self.flush_utf8().backspace()
        } else if byte == 0x09 {
            self.flush_utf8().tab()
        } else if byte <= 0x1f {
            self.flush_utf8()
        } else if byte <= 0x7e {
            self.flush_utf8().write_char(byte as char)
        } else {
            self.push_utf8_byte(byte)
        }
    }

    /// The byte after ESC: starts a control sequence (`[`) or an operating system
    /// command (`]`), or runs a short command.
    pub open spec fn escape_byte(self, byte: u8) -> TerminalModel {
        let m = if byte == 68 {
            self.index_down()
        } else if byte == 77 {
            self.reverse_index()
        } else if byte == 69 {
            self.next_line()
        } else if byte == 55 {
            self.save_cursor()
        } else if byte == 56 {
            self.restore_cursor()
        } else if byte == 99 {
            self.reset()
        } else {
            self
        };
        m.with_parser(
            if byte == 91 {
                ParserModel::Csi(Seq::empty())
            } else if byte == 93 {
                ParserModel::Osc
            } else {
                ParserModel::Ground
            },
        )
    }

    /// Inside a control sequence: a final byte (0x40 to 0x7e) runs it, anything else is
    /// collected (up to the limit).
    pub open spec fn csi_byte(self, bytes: Seq<u8>, byte: u8) -> TerminalModel {
        let m = self.with_parser(ParserModel::Ground);
        if 0x40 <= byte <= 0x7e {
            m.execute_csi(byte, bytes)
        } else {
            m.with_parser(
                ParserModel::Csi(
                    if bytes.len() < CSI_PARAMS_LIMIT {
                        bytes.push(byte)
                    } else {
                        bytes
                    },
                ),
            )
        }
    }

    /// Inside an operating system command, which is skipped up to BEL or `ESC \`.
    pub open spec fn osc_byte(self, byte: u8) -> TerminalModel {
        self.with_parser(
            if byte == 0x07 {
                ParserModel::Ground
            } else if byte == 0x1b {
                ParserModel::OscEsc
            } else {
                ParserModel::Osc
            },
        )
    }

    /// After ESC inside an operating system command: a backslash ends it.
    pub open spec fn osc_esc_byte(self, byte: u8) -> TerminalModel {
        self.with_parser(
            if byte == 92 {
                ParserModel::Ground
            } else {
                ParserModel::Osc
            },
        )
    }

    /// One byte of output from the program running in the terminal.
    #[verifier::opaque]
    pub open spec fn push_byte(self, byte: u8) -> TerminalModel {
        match self.parser {
            ParserModel::Ground => self.ground_byte(byte),
            ParserModel::Escape => self.escape_byte(byte),
            ParserModel::Csi(bytes) => self.csi_byte(bytes, byte),
            ParserModel::Osc => self.osc_byte(byte),
            ParserModel::OscEsc => self.osc_esc_byte(byte),
        }
    }

    /// A stream of output bytes, one after the other.
    pub open spec fn push_bytes(self, bytes: Seq<u8>) -> TerminalModel
        decreases bytes.len(),
    {
        if bytes.len() == 0 {
            self
        } else {
            self.push_bytes(bytes.drop_last()).push_byte(bytes.last())
        }
    }
}

} // verus!
