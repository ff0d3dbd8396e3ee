//! The terminal's cell, attribute, mode and parser types, and one screen's grid.
use vstd::prelude::*;

use crate::cells::{Cell, Color};

verus! {

/// One cell of a screen.
#[derive(Clone, Copy, Debug, PartialEq, Eq, Structural)]
pub struct TerminalCell {
    pub ch: char,
    pub fg: Color,
    pub bg: Color,
    pub flags: u8,
}

impl TerminalCell {
    /// An empty cell: a space in the default colors.
    pub open spec fn blank() -> TerminalCell {
        TerminalCell { ch: ' ', fg: Color::DefaultFg, bg: Color::DefaultBg, flags: 0 }
    }

    /// Returns an empty cell.
    pub fn blank_cell() -> (c: TerminalCell)
        ensures
            c == TerminalCell::blank(),
    {
        TerminalCell { ch: ' ', fg: Color::DefaultFg, bg: Color::DefaultBg, flags: 0 }
    }

    /// The rendered form of a cell: the same character, colors and flags.
    pub open spec fn to_cell(self) -> Cell {
        Cell { ch: self.ch, fg: self.fg, bg: self.bg, flags: self.flags }
    }

    /// Converts a cell into its rendered form.
    pub fn into_cell(self) -> (c: Cell)
        ensures
            c == self.to_cell(),
    {
        Cell { ch: self.ch, fg: self.fg, bg: self.bg, flags: self.flags }
    }
}

impl Default for TerminalCell {
    fn default() -> (c: Self)
        ensures
            c == TerminalCell::blank(),
    {
        TerminalCell::blank_cell()
    }
}

/// The attributes that newly written characters get.
#[derive(Clone, Copy, Debug, PartialEq, Eq, Structural)]
pub struct CellAttributes {
    pub fg: Color,
    pub bg: Color,
    pub flags: u8,
}

impl CellAttributes {
    /// Default colors, no flags.
    pub open spec fn initial() -> CellAttributes {
        CellAttributes { fg: Color::DefaultFg, bg: Color::DefaultBg, flags: 0 }
    }

    /// Returns the default attributes.
    pub fn initial_attributes() -> (a: CellAttributes)
        ensures
            a == CellAttributes::initial(),
    {
        CellAttributes { fg: Color::DefaultFg, bg: Color::DefaultBg, flags: 0 }
    }
}

impl Default for CellAttributes {
    fn default() -> (a: Self)
        ensures
            a == CellAttributes::initial(),
    {
        CellAttributes::initial_attributes()
    }
}

/// Where the escape-sequence parser stands.
#[derive(Debug, Clone, PartialEq, Eq)]
pub enum ParserState {
    Ground,
    Escape,
    Csi(Vec<u8>),
    Osc,
    OscEsc,
}

/// The mathematical content of the parser state.
pub enum ParserModel {
    Ground,
    Escape,
    Csi(Seq<u8>),
    Osc,
    OscEsc,
}

impl View for ParserState {
    type V = ParserModel;

    open spec fn view(&self) -> ParserModel {
        match self {
            ParserState::Ground => ParserModel::Ground,
            ParserState::Escape => ParserModel::Escape,
            ParserState::Csi(bytes) => ParserModel::Csi(bytes@),
            ParserState::Osc => ParserModel::Osc,
            ParserState::OscEsc => ParserModel::OscEsc,
        }
    }
}

/// Terminal modes that the application running in the terminal switches.
#[derive(Clone, Copy, Debug, PartialEq, Eq, Structural)]
pub struct TerminalModes {
    pub cursor_visible: bool,
    pub bracketed_paste: bool,
    pub application_cursor: bool,
    pub origin_mode: bool,
}

impl TerminalModes {
    /// A visible cursor and every other mode off.
    pub open spec fn initial() -> TerminalModes {
        TerminalModes {
            cursor_visible: true,
            bracketed_paste: false,
            application_cursor: false,
            origin_mode: false,
        }
    }

    /// Returns the initial modes.
    pub fn initial_modes() -> (m: TerminalModes)
        ensures
            m == TerminalModes::initial(),
    {
        TerminalModes {
            cursor_visible: true,
            bracketed_paste: false,
            application_cursor: false,
            origin_mode: false,
        }
    }
}

impl Default for TerminalModes {
    fn default() -> (m: Self)
        ensures
            m == TerminalModes::initial(),
    {
        TerminalModes::initial_modes()
    }
}

/// A row of `cols` empty cells.
pub open spec fn blank_row(cols: nat) -> Seq<TerminalCell> {
    Seq::new(cols, |i: int| TerminalCell::blank())
}

/// `row` cut or padded with empty cells to `cols` cells.
pub open spec fn fit_row(row: Seq<TerminalCell>, cols: nat) -> Seq<TerminalCell> {
    Seq::new(cols, |i: int| if i < row.len() { row[i] } else { TerminalCell::blank() })
}

/// The rows held by a vector of row vectors.
pub open spec fn grid_of(lines: Seq<Vec<TerminalCell>>) -> Seq<Seq<TerminalCell>> {
    Seq::new(lines.len(), |i: int| lines[i]@)
}

/// Returns a row of `cols` empty cells.
pub fn blank_line(cols: u16) -> (v: Vec<TerminalCell>)
    ensures
        v@ == blank_row(cols as nat),
{
    let mut v: Vec<TerminalCell> = Vec::new();
    let mut i: u16 = 0;
    while i < cols
        invariant
            i <= cols,
            v@ == blank_row(i as nat),
        decreases cols - i,
    {
        v.push(TerminalCell::blank_cell());
        i = i + 1;
    }
    v
}

/// The mathematical content of one screen.
#[verifier::ext_equal]
pub struct ScreenModel {
    pub cols: u16,
    pub rows: u16,
    pub grid: Seq<Seq<TerminalCell>>,
    pub cursor_row: u16,
    pub cursor_col: u16,
    pub saved_cursor: Option<(u16, u16)>,
    pub wrap_pending: bool,
    pub scroll_top: u16,
    pub scroll_bottom: u16,
}

impl ScreenModel {
    /// A screen is well formed: a non-empty `rows` by `cols` grid, a cursor inside it,
    /// and a scroll region of at least one row inside it.
    pub open spec fn wf(self) -> bool {
        &&& self.cols >= 1
        &&& self.rows >= 1
        &&& self.grid.len() == self.rows
        &&& forall|r: int| 0 <= r < self.rows ==> (#[trigger] self.grid[r]).len() == self.cols
        &&& self.cursor_row < self.rows
        &&& self.cursor_col < self.cols
        &&& self.scroll_top <= self.scroll_bottom
        &&& self.scroll_bottom < self.rows
    }

    /// A fresh screen of `max(cols, 1)` by `max(rows, 1)` empty cells.
    pub open spec fn fresh(cols: u16, rows: u16) -> ScreenModel {
        let cols = if cols == 0 { 1u16 } else { cols };
        let rows = if rows == 0 { 1u16 } else { rows };
        ScreenModel {
            cols,
            rows,
            grid: Seq::new(rows as nat, |r: int| blank_row(cols as nat)),
            cursor_row: 0,
            cursor_col: 0,
            saved_cursor: None,
            wrap_pending: false,
            scroll_top: 0,
            scroll_bottom: (rows - 1) as u16,
        }
    }

    /// The screen resized without reflow: the top-left cells that fit stay, new cells
    /// are empty, the cursor and the saved cursor are clamped into the grid, and the
    /// scroll region becomes the whole screen. Resizing to the current size changes nothing.
    pub open spec fn resized(self, cols: u16, rows: u16) -> ScreenModel {
        let cols = if cols == 0 { 1u16 } else { cols };
        let rows = if rows == 0 { 1u16 } else { rows };
        if self.cols == cols && self.rows == rows {
            self
        } else {
            ScreenModel {
                cols,
                rows,
                grid: Seq::new(
                    rows as nat,
                    |r: int|
                        Seq::new(
                            cols as nat,
                            |c: int|
                                if r < self.rows && c < self.cols {
                                    self.grid[r][c]
                                } else {
                                    TerminalCell::blank()
                                },
                        ),
                ),
                cursor_row: if self.cursor_row < rows { self.cursor_row } else { (rows - 1) as u16 },
                cursor_col: if self.cursor_col < cols { self.cursor_col } else { (cols - 1) as u16 },
                saved_cursor: match self.saved_cursor {
                    Some((r, c)) => Some(
                        (
                            if r < rows { r } else { (rows - 1) as u16 },
                            if c < cols { c } else { (cols - 1) as u16 },
                        ),
                    ),
                    None => None,
                },
                wrap_pending: false,
                scroll_top: 0,
                scroll_bottom: (rows - 1) as u16,
            }
        }
    }

    /// Every cell empty, cursor home, no saved cursor, whole-screen scroll region.
    pub open spec fn cleared(self) -> ScreenModel {
        ScreenModel {
            grid: Seq::new(self.rows as nat, |r: int| blank_row(self.cols as nat)),
            cursor_row: 0,
            cursor_col: 0,
            saved_cursor: None,
            wrap_pending: false,
            scroll_top: 0,
            scroll_bottom: (self.rows - 1) as u16,
            ..self
        }
    }

    /// The screen with one cell replaced.
    pub open spec fn with_cell(self, row: int, col: int, cell: TerminalCell) -> ScreenModel {
        ScreenModel { grid: self.grid.update(row, self.grid[row].update(col, cell)), ..self }
    }

    /// The screen with one row replaced.
    pub open spec fn with_row(self, row: int, line: Seq<TerminalCell>) -> ScreenModel {
        ScreenModel { grid: self.grid.update(row, line), ..self }
    }

    /// The screen with rows `top..=bottom` moved up by `count`, empty rows filling the
    /// bottom of the region; rows outside the region stay.
    pub open spec fn scrolled_up(self, top: int, bottom: int, count: int) -> ScreenModel {
        ScreenModel {
            grid: Seq::new(
                self.rows as nat,
                |r: int|
                    if top <= r <= bottom {
                        if r + count <= bottom {
                            self.grid[r + count]
                        } else {
                            blank_row(self.cols as nat)
                        }
                    } else {
                        self.grid[r]
                    },
            ),
            ..self
        }
    }

    /// The screen with rows `top..=bottom` moved down by `count`, empty rows filling the
    /// top of the region; rows outside the region stay.
    pub open spec fn scrolled_down(self, top: int, bottom: int, count: int) -> ScreenModel {
        ScreenModel {
            grid: Seq::new(
                self.rows as nat,
                |r: int|
                    if top <= r <= bottom {
                        if r >= top + count {
                            self.grid[r - count]
                        } else {
                            blank_row(self.cols as nat)
                        }
                    } else {
                        self.grid[r]
                    },
            ),
            ..self
        }
    }
}

/// One screen: its grid, cursor and scroll region.
#[derive(Clone, Debug)]
pub struct ScreenBuffer {
    pub cols: u16,
    pub rows: u16,
    pub lines: Vec<Vec<TerminalCell>>,
    pub cursor_row: u16,
    pub cursor_col: u16,
    pub saved_cursor: Option<(u16, u16)>,
    pub wrap_pending: bool,
    pub scroll_top: u16,
    pub scroll_bottom: u16,
}

impl View for ScreenBuffer {
    type V = ScreenModel;

    open spec fn view(&self) -> ScreenModel {
        ScreenModel {
            cols: self.cols,
            rows: self.rows,
            grid: grid_of(self.lines@),
            cursor_row: self.cursor_row,
            cursor_col: self.cursor_col,
            saved_cursor: self.saved_cursor,
            wrap_pending: self.wrap_pending,
            scroll_top: self.scroll_top,
            scroll_bottom: self.scroll_bottom,
        }
    }
}

/// Returns `rows` rows of `cols` empty cells.
fn blank_lines(cols: u16, rows: u16) -> (v: Vec<Vec<TerminalCell>>)
    ensures
        grid_of(v@) == Seq::new(rows as nat, |r: int| blank_row(cols as nat)),
{
    let mut v: Vec<Vec<TerminalCell>> = Vec::new();
    let mut i: u16 = 0;
    while i < rows
        invariant
            i <= rows,
            v@.len() == i,
            forall|k: int| 0 <= k < i ==> (#[trigger] v@[k])@ == blank_row(cols as nat),
        decreases rows - i,
    {
        v.push(blank_line(cols));
        i = i + 1;
    }
    assert(grid_of(v@) =~= Seq::new(rows as nat, |r: int| blank_row(cols as nat)));
    v
}

impl ScreenBuffer {
    /// A fresh screen of `max(cols, 1)` by `max(rows, 1)` empty cells.
    pub fn new(cols: u16, rows: u16) -> (s: Self)
        ensures
            s@ == ScreenModel::fresh(cols, rows),
            s@.wf(),
    {
        let cols = if cols == 0 { 1 } else { cols };
        let rows = if rows == 0 { 1 } else { rows };
        ScreenBuffer {
            cols,
            rows,
            lines: blank_lines(cols, rows),
            cursor_row: 0,
            cursor_col: 0,
            saved_cursor: None,
            wrap_pending: false,
            scroll_top: 0,
            scroll_bottom: rows - 1,
        }
    }

    /// Resizes without reflow.
    pub fn resize(&mut self, cols: u16, rows: u16)
        requires
            old(self)@.wf(),
        ensures
            final(self)@ == old(self)@.resized(cols, rows),
            final(self)@.wf(),
    {
        let cols = if cols == 0 { 1 } else { cols };
        let rows = if rows == 0 { 1 } else { rows };
        if self.cols == cols && self.rows == rows {
            return;
        }
        let ghost old_grid = self@.grid;
        let old_cols = self.cols;
        let old_rows = self.rows;
        let mut lines: Vec<Vec<TerminalCell>> = Vec::new();
        let mut r: u16 = 0;
        while r < rows
            invariant
                r <= rows,
                old_grid == self@.grid,
                old_cols == self.cols,
                old_rows == self.rows,
                self@.wf(),
                lines@.len() == r,
                forall|i: int|
                    0 <= i < r ==> (#[trigger] lines@[i])@ == Seq::new(
                        cols as nat,
                        |c: int|
                            if i < old_rows && c < old_cols {
                                old_grid[i][c]
                            } else {
                                TerminalCell::blank()
                            },
                    ),
            decreases rows - r,
        {
            let mut line: Vec<TerminalCell> = Vec::new();
            let mut c: u16 = 0;
            while c < cols
                invariant
                    c <= cols,
                    r < rows,
                    old_grid == self@.grid,
                    old_cols == self.cols,
                    old_rows == self.rows,
                    self@.wf(),
                    line@ == Seq::new(
                        c as nat,
                        |k: int|
                            if r < old_rows && k < old_cols {
                                old_grid[r as int][k]
                            } else {
                                TerminalCell::blank()
                            },
                    ),
                decreases cols - c,
            {
                if r < old_rows && c < old_cols {
                    let cell = self.lines[r as usize][c as usize];
                    line.push(cell);
                } else {
                    line.push(TerminalCell::blank_cell());
                }
                c = c + 1;
            }
            lines.push(line);
            r = r + 1;
        }
        self.cols = cols;
        self.rows = rows;
        self.lines = lines;
        if self.cursor_row >= rows {
            self.cursor_row = rows - 1;
        }
        if self.cursor_col >= cols {
            self.cursor_col = cols - 1;
        }
        self.scroll_top = 0;
        self.scroll_bottom = rows - 1;
        self.wrap_pending = false;
        if let Some((row, col)) = self.saved_cursor {
            let row = if row < rows { row } else { rows - 1 };
            let col = if col < cols { col } else { cols - 1 };
            self.saved_cursor = Some((row, col));
        }
        assert(self@.grid =~= old(self)@.resized(cols, rows).grid);
    }

    /// Empties every cell, sends the cursor home, forgets the saved cursor and resets the
    /// scroll region.
    pub fn clear(&mut self)
        requires
            old(self)@.wf(),
        ensures
            final(self)@ == old(self)@.cleared(),
            final(self)@.wf(),
    {
        self.lines = blank_lines(self.cols, self.rows);
        self.cursor_row = 0;
        self.cursor_col = 0;
        self.saved_cursor = None;
        self.wrap_pending = false;
        self.scroll_top = 0;
        self.scroll_bottom = self.rows - 1;
    }

    /// The cell at a position inside the grid.
    pub fn cell(&self, row: u16, col: u16) -> (c: TerminalCell)
        requires
            self@.wf(),
            row < self.rows,
            col < self.cols,
        ensures
            c == self@.grid[row as int][col as int],
    {
        self.lines[row as usize][col as usize]
    }

    /// Replaces the cell at a position inside the grid.
    pub fn set_cell(&mut self, row: u16, col: u16, cell: TerminalCell)
        requires
            old(self)@.wf(),
            row < old(self).rows,
            col < old(self).cols,
        ensures
            final(self)@ == old(self)@.with_cell(row as int, col as int, cell),
            final(self)@.wf(),
    {
        self.lines[row as usize].set(col as usize, cell);
        assert(self@.grid =~= old(self)@.with_cell(row as int, col as int, cell).grid);
    }

    /// Replaces a row inside the grid.
    pub fn set_line(&mut self, row: u16, line: Vec<TerminalCell>)
        requires
            old(self)@.wf(),
            row < old(self).rows,
            line@.len() == old(self).cols,
        ensures
            final(self)@ == old(self)@.with_row(row as int, line@),
            final(self)@.wf(),
    {
        let ghost l = line@;
        self.lines.set(row as usize, line);
        assert(self@.grid =~= old(self)@.with_row(row as int, l).grid);
    }

    /// Empties one row.
    pub fn clear_row(&mut self, row: u16)
        requires
            old(self)@.wf(),
            row < old(self).rows,
        ensures
            final(self)@ == old(self)@.with_row(row as int, blank_row(old(self).cols as nat)),
            final(self)@.wf(),
    {
        let line = blank_line(self.cols);
        self.set_line(row, line);
    }

    /// Moves rows `top..=bottom` up by `n`, emptying the bottom `n` rows of the region.
    pub fn scroll_region_up(&mut self, top: u16, bottom: u16, n: u16)
        requires
            old(self)@.wf(),
            top <= bottom < old(self).rows,
            1 <= n <= bottom - top + 1,
        ensures
            final(self)@ == old(self)@.scrolled_up(top as int, bottom as int, n as int),
            final(self)@.wf(),
    {
        let ghost g = self@.grid;
        let mut r: u16 = top;
        while (r as u32) + (n as u32) <= bottom as u32
            invariant
                self@.wf(),
                self.rows == old(self).rows,
                self.cols == old(self).cols,
                self@.cursor_row == old(self)@.cursor_row,
                self@.cursor_col == old(self)@.cursor_col,
                self@.saved_cursor == old(self)@.saved_cursor,
                self@.wrap_pending == old(self)@.wrap_pending,
                self@.scroll_top == old(self)@.scroll_top,
                self@.scroll_bottom == old(self)@.scroll_bottom,
                g == old(self)@.grid,
                top <= bottom < self.rows,
                1 <= n <= bottom - top + 1,
                top <= r <= bottom,
                r + n <= bottom + 1,
                forall|i: int|
                    0 <= i < self.rows ==> #[trigger] self@.grid[i] == if top <= i < r {
                        g[i + n]
                    } else {
                        g[i]
                    },
            decreases bottom - r,
        {
            let line = self.line(r + n);
            self.set_line(r, line);
            r = r + 1;
        }
        while r <= bottom
            invariant
                self@.wf(),
                self.rows == old(self).rows,
                self.cols == old(self).cols,
                self@.cursor_row == old(self)@.cursor_row,
                self@.cursor_col == old(self)@.cursor_col,
                self@.saved_cursor == old(self)@.saved_cursor,
                self@.wrap_pending == old(self)@.wrap_pending,
                self@.scroll_top == old(self)@.scroll_top,
                self@.scroll_bottom == old(self)@.scroll_bottom,
                g == old(self)@.grid,
                top <= bottom < self.rows,
                1 <= n <= bottom - top + 1,
                top <= r <= bottom + 1,
                r + n > bottom,
                forall|i: int|
                    0 <= i < self.rows ==> #[trigger] self@.grid[i] == if top <= i && i + n
                        <= bottom {
                        g[i + n]
                    } else if top <= i < r {
                        blank_row(self.cols as nat)
                    } else {
                        g[i]
                    },
            decreases bottom + 1 - r,
        {
            self.clear_row(r);
            r = r + 1;
        }
        assert(self@.grid =~= old(self)@.scrolled_up(top as int, bottom as int, n as int).grid);
    }

    /// Moves rows `top..=bottom` down by `n`, emptying the top `n` rows of the region.
    pub fn scroll_region_down(&mut self, top: u16, bottom: u16, n: u16)
        requires
            old(self)@.wf(),
            top <= bottom < old(self).rows,
            1 <= n <= bottom - top + 1,
        ensures
            final(self)@ == old(self)@.scrolled_down(top as int, bottom as int, n as int),
            final(self)@.wf(),
    {
        let ghost g = self@.grid;
        // `r` counts down from `bottom`; rows above `r` (inside the region) are done.
        let mut r: u32 = bottom as u32 + 1;
        while r > top as u32 + n as u32
            invariant
                self@.wf(),
                self.rows == old(self).rows,
                self.cols == old(self).cols,
                self@.cursor_row == old(self)@.cursor_row,
                self@.cursor_col == old(self)@.cursor_col,
                self@.saved_cursor == old(self)@.saved_cursor,
                self@.wrap_pending == old(self)@.wrap_pending,
                self@.scroll_top == old(self)@.scroll_top,
                self@.scroll_bottom == old(self)@.scroll_bottom,
                g == old(self)@.grid,
                top <= bottom < self.rows,
                1 <= n <= bottom - top + 1,
                top + n <= r <= bottom + 1,
                forall|i: int|
                    0 <= i < self.rows ==> #[trigger] self@.grid[i] == if r <= i <= bottom {
                        g[i - n]
                    } else {
                        g[i]
                    },
            decreases r,
        {
            r = r - 1;
            let line = self.line((r - n as u32) as u16);
            self.set_line(r as u16, line);
        }
        let mut k: u16 = top;
        while k < top + n
            invariant
                self@.wf(),
                self.rows == old(self).rows,
                self.cols == old(self).cols,
                self@.cursor_row == old(self)@.cursor_row,
                self@.cursor_col == old(self)@.cursor_col,
                self@.saved_cursor == old(self)@.saved_cursor,
                self@.wrap_pending == old(self)@.wrap_pending,
                self@.scroll_top == old(self)@.scroll_top,
                self@.scroll_bottom == old(self)@.scroll_bottom,
                g == old(self)@.grid,
                top <= bottom < self.rows,
                1 <= n <= bottom - top + 1,
                top <= k <= top + n,
                forall|i: int|
                    0 <= i < self.rows ==> #[trigger] self@.grid[i] == if top + n <= i <= bottom {
                        g[i - n]
                    } else if top <= i < k {
                        blank_row(self.cols as nat)
                    } else {
                        g[i]
                    },
            decreases top + n - k,
        {
            self.clear_row(k);
            k = k + 1;
        }
        assert(self@.grid =~= old(self)@.scrolled_down(top as int, bottom as int, n as int).grid);
    }

    /// Removes the top row, handing it out, and adds an empty row at the bottom.
    pub fn shift_up_one(&mut self) -> (top: Vec<TerminalCell>)
        requires
            old(self)@.wf(),
        ensures
            top@ == old(self)@.grid[0],
            final(self)@ == old(self)@.scrolled_up(0, old(self).rows - 1, 1),
            final(self)@.wf(),
    {
        let top = self.lines.remove(0);
        self.lines.push(blank_line(self.cols));
        assert(self@.grid =~= old(self)@.scrolled_up(0, old(self).rows - 1, 1).grid);
        top
    }

    /// Empties the cells `from..to` of one row.
    pub fn blank_range(&mut self, row: u16, from: u16, to: u16)
        requires
            old(self)@.wf(),
            row < old(self).rows,
            from <= to <= old(self).cols,
        ensures
            final(self)@ == old(self)@.with_row(
                row as int,
                Seq::new(
                    old(self).cols as nat,
                    |c: int|
                        if from <= c < to {
                            TerminalCell::blank()
                        } else {
                            old(self)@.grid[row as int][c]
                        },
                ),
            ),
            final(self)@.wf(),
    {
        let ghost line = self@.grid[row as int];
        let mut c = from;
        assert(Seq::new(
            self.cols as nat,
            |k: int|
                if from <= k < from {
                    TerminalCell::blank()
                } else {
                    line[k]
                },
        ) =~= line);
        assert(old(self)@.grid.update(row as int, line) =~= old(self)@.grid);
        assert(old(self)@.with_row(row as int, line) =~= old(self)@);
        while c < to
            invariant
                self@.wf(),
                self.rows == old(self).rows,
                self.cols == old(self).cols,
                row < self.rows,
                from <= c <= to <= self.cols,
                old(self)@.wf(),
                line == old(self)@.grid[row as int],
                self@ == old(self)@.with_row(
                    row as int,
                    Seq::new(
                        self.cols as nat,
                        |k: int|
                            if from <= k < c {
                                TerminalCell::blank()
                            } else {
                                line[k]
                            },
                    ),
                ),
            decreases to - c,
        {
            let ghost prev_row = self@.grid[row as int];
            self.set_cell(row, c, TerminalCell::blank_cell());
            c = c + 1;
            assert(prev_row.update(c - 1, TerminalCell::blank()) =~= Seq::new(
                self.cols as nat,
                |k: int|
                    if from <= k < c {
                        TerminalCell::blank()
                    } else {
                        line[k]
                    },
            ));
            assert(self@ =~= old(self)@.with_row(
                row as int,
                Seq::new(
                    self.cols as nat,
                    |k: int|
                        if from <= k < c {
                            TerminalCell::blank()
                        } else {
                            line[k]
                        },
                ),
            ));
        }
    }

    /// Empties the rows `from..to`.
    pub fn clear_rows(&mut self, from: u16, to: u16)
        requires
            old(self)@.wf(),
            from <= to <= old(self).rows,
        ensures
            final(self)@ == (ScreenModel {
                grid: Seq::new(
                    old(self).rows as nat,
                    |r: int|
                        if from <= r < to {
                            blank_row(old(self).cols as nat)
                        } else {
                            old(self)@.grid[r]
                        },
                ),
                ..old(self)@
            }),
            final(self)@.wf(),
    {
        let ghost g = self@.grid;
        let mut r = from;
        while r < to
            invariant
                self@.wf(),
                self.rows == old(self).rows,
                self.cols == old(self).cols,
                from <= r <= to <= self.rows,
                g == old(self)@.grid,
                self@ == (ScreenModel {
                    grid: Seq::new(
                        self.rows as nat,
                        |k: int|
                            if from <= k < r {
                                blank_row(self.cols as nat)
                            } else {
                                g[k]
                            },
                    ),
                    ..old(self)@
                }),
            decreases to - r,
        {
            self.clear_row(r);
            r = r + 1;
            assert(self@ =~= (ScreenModel {
                grid: Seq::new(
                    self.rows as nat,
                    |k: int|
                        if from <= k < r {
                            blank_row(self.cols as nat)
                        } else {
                            g[k]
                        },
                ),
                ..old(self)@
            }));
        }
    }

    /// Inserts `n` empty cells at `col` of `row`, pushing the rest of the row right; cells
    /// pushed past the end are lost.
    pub fn insert_blanks(&mut self, row: u16, col: u16, n: u16)
        requires
            old(self)@.wf(),
            row < old(self).rows,
            col < old(self).cols,
            n <= old(self).cols - col,
        ensures
            final(self)@ == old(self)@.with_row(
                row as int,
                Seq::new(
                    old(self).cols as nat,
                    |c: int|
                        if c < col {
                            old(self)@.grid[row as int][c]
                        } else if c < col + n {
                            TerminalCell::blank()
                        } else {
                            old(self)@.grid[row as int][c - n]
                        },
                ),
            ),
            final(self)@.wf(),
    {
        let line = self.line(row);
        let mut out: Vec<TerminalCell> = Vec::new();
        let mut c: u16 = 0;
        while c < self.cols
            invariant
                self@ == old(self)@,
                self@.wf(),
                row < self.rows,
                col < self.cols,
                n <= self.cols - col,
                line@ == self@.grid[row as int],
                c <= self.cols,
                out@ == Seq::new(
                    c as nat,
                    |k: int|
                        if k < col {
                            line@[k]
                        } else if k < col + n {
                            TerminalCell::blank()
                        } else {
                            line@[k - n]
                        },
                ),
            decreases self.cols - c,
        {
            if c < col {
                out.push(line[c as usize]);
            } else if c < col + n {
                out.push(TerminalCell::blank_cell());
            } else {
                out.push(line[(c - n) as usize]);
            }
            c = c + 1;
            assert(out@ =~= Seq::new(
                c as nat,
                |k: int|
                    if k < col {
                        line@[k]
                    } else if k < col + n {
                        TerminalCell::blank()
                    } else {
                        line@[k - n]
                    },
            ));
        }
        self.set_line(row, out);
    }

    /// Removes `n` cells at `col` of `row`, pulling the rest of the row left; the freed
    /// cells at the end are empty.
    pub fn remove_cells(&mut self, row: u16, col: u16, n: u16)
        requires
            old(self)@.wf(),
            row < old(self).rows,
            col < old(self).cols,
            n <= old(self).cols - col,
        ensures
            final(self)@ == old(self)@.with_row(
                row as int,
                Seq::new(
                    old(self).cols as nat,
                    |c: int|
                        if c < col {
                            old(self)@.grid[row as int][c]
                        } else if c < old(self).cols - n {
                            old(self)@.grid[row as int][c + n]
                        } else {
                            TerminalCell::blank()
                        },
                ),
            ),
            final(self)@.wf(),
    {
        let line = self.line(row);
        let mut out: Vec<TerminalCell> = Vec::new();
        let mut c: u16 = 0;
        while c < self.cols
            invariant
                self@ == old(self)@,
                self@.wf(),
                row < self.rows,
                col < self.cols,
                n <= self.cols - col,
                line@ == self@.grid[row as int],
                c <= self.cols,
                out@ == Seq::new(
                    c as nat,
                    |k: int|
                        if k < col {
                            line@[k]
                        } else if k < self.cols - n {
                            line@[k + n]
                        } else {
                            TerminalCell::blank()
                        },
                ),
            decreases self.cols - c,
        {
            if c < col {
                out.push(line[c as usize]);
            } else if c < self.cols - n {
                out.push(line[(c + n) as usize]);
            } else {
                out.push(TerminalCell::blank_cell());
            }
            c = c + 1;
            assert(out@ =~= Seq::new(
                c as nat,
                |k: int|
                    if k < col {
                        line@[k]
                    } else if k < self.cols - n {
                        line@[k + n]
                    } else {
                        TerminalCell::blank()
                    },
            ));
        }
        self.set_line(row, out);
    }

    /// A copy of one row.
    pub fn line(&self, row: u16) -> (v: Vec<TerminalCell>)
        requires
            self@.wf(),
            row < self.rows,
        ensures
            v@ == self@.grid[row as int],
    {
        let mut v: Vec<TerminalCell> = Vec::new();
        let mut c: u16 = 0;
        while c < self.cols
            invariant
                self@.wf(),
                row < self.rows,
                c <= self.cols,
                v@ == self@.grid[row as int].subrange(0, c as int),
            decreases self.cols - c,
        {
            v.push(self.lines[row as usize][c as usize]);
            c = c + 1;
            assert(v@ =~= self@.grid[row as int].subrange(0, c as int));
        }
        assert(v@ =~= self@.grid[row as int]);
        v
    }
}

} // verus!
