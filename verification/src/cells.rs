//! What the renderer receives from the terminal core: cells, cursor, damage,
//! the render snapshot, and selection ranges over the grid.
use std::collections::BTreeSet;
use vstd::prelude::*;

verus! {

broadcast use {vstd::std_specs::btree::group_btree_axioms, vstd::laws_cmp::group_laws_cmp};

/// A cell color as the terminal core decides it; the renderer turns it into RGBA.
///
/// `Ansi` is one of the 16 base colors (`index` below 8, `bright` choosing the
/// bright half), `Cube` a level (each below 6) of the 6x6x6 color cube of the
/// 256-color palette, `Gray` one of its 24 gray steps, and `Rgb` a direct color whose
/// components are taken on a 0 to 255 scale.
#[derive(Clone, Copy, Debug, PartialEq, Eq, Structural)]
pub enum Color {
    DefaultFg,
    DefaultBg,
    Ansi { index: u8, bright: bool },
    Cube { red_level: u8, green_level: u8, blue_level: u8 },
    Gray { level: u8 },
    Rgb { red: usize, green: usize, blue: usize },
}

/// One rendered cell.
#[derive(Clone, Copy, Debug, PartialEq, Eq, Structural)]
pub struct Cell {
    pub ch: char,
    pub fg: Color,
    pub bg: Color,
    pub flags: u8,
}

impl Cell {
    /// An empty cell: a space in the default colors.
    pub open spec fn blank() -> Cell {
        Cell { ch: ' ', fg: Color::DefaultFg, bg: Color::DefaultBg, flags: 0 }
    }

    /// Returns an empty cell.
    pub fn blank_cell() -> (c: Cell)
        ensures
            c == Cell::blank(),
    {
        Cell { ch: ' ', fg: Color::DefaultFg, bg: Color::DefaultBg, flags: 0 }
    }
}

impl Default for Cell {
    fn default() -> (c: Self)
        ensures
            c == Cell::blank(),
    {
        Cell::blank_cell()
    }
}

/// Where the cursor is drawn and whether it is drawn at all.
#[derive(Clone, Copy, Debug, PartialEq, Eq, Structural)]
pub struct CursorState {
    pub row: u16,
    pub col: u16,
    pub visible: bool,
}

/// Which of the two screens is shown.
#[derive(Clone, Copy, Debug, PartialEq, Eq, Structural)]
pub enum ActiveScreen {
    Primary,
    Alternate,
}

/// The parts of the picture that changed since the renderer last asked.
#[derive(Clone, Debug, PartialEq, Eq, Default)]
pub struct RenderDamage {
    pub full_rebuild: bool,
    pub dirty_rows: BTreeSet<u16>,
    pub selection_dirty: bool,
    pub cursor_dirty: bool,
    pub global_dirty: bool,
}

/// The mathematical content of a damage record.
#[verifier::ext_equal]
pub struct DamageModel {
    pub full_rebuild: bool,
    pub dirty_rows: Set<u16>,
    pub selection_dirty: bool,
    pub cursor_dirty: bool,
    pub global_dirty: bool,
}

impl DamageModel {
    /// No damage at all.
    pub open spec fn empty() -> DamageModel {
        DamageModel {
            full_rebuild: false,
            dirty_rows: Set::empty(),
            selection_dirty: false,
            cursor_dirty: false,
            global_dirty: false,
        }
    }
}

impl View for RenderDamage {
    type V = DamageModel;

    open spec fn view(&self) -> DamageModel {
        DamageModel {
            full_rebuild: self.full_rebuild,
            dirty_rows: self.dirty_rows@,
            selection_dirty: self.selection_dirty,
            cursor_dirty: self.cursor_dirty,
            global_dirty: self.global_dirty,
        }
    }
}

/// A full picture of the terminal grid for one frame.
#[derive(Clone, Debug, PartialEq)]
pub struct RenderSnapshot {
    pub cols: u16,
    pub rows: u16,
    pub cells: Vec<Cell>,
    pub cursor: Option<CursorState>,
    pub active_screen: ActiveScreen,
    pub damage: RenderDamage,
}

/// `row * cols + col` lies in `0 .. rows * cols` for a cell inside the grid.
pub proof fn lemma_grid_index_bounds(row: int, col: int, rows: int, cols: int)
    requires
        0 <= row < rows,
        0 <= col < cols,
    ensures
        0 <= row * cols + col < rows * cols,
        row * cols + col <= (rows - 1) * cols + (cols - 1),
{
    assert(0 <= row * cols) by (nonlinear_arith)
        requires
            0 <= row,
            0 <= col < cols,
    ;
    assert(row * cols + col < rows * cols) by (nonlinear_arith)
        requires
            0 <= row < rows,
            0 <= col < cols,
    ;
    assert(row * cols + col <= (rows - 1) * cols + (cols - 1)) by (nonlinear_arith)
        requires
            0 <= row < rows,
            0 <= col < cols,
    ;
}

/// Distinct cells of a grid have distinct row-major indices.
pub proof fn lemma_grid_index_injective(r1: int, c1: int, r2: int, c2: int, cols: int)
    requires
        0 <= c1 < cols,
        0 <= c2 < cols,
        0 <= r1,
        0 <= r2,
        r1 * cols + c1 == r2 * cols + c2,
    ensures
        r1 == r2,
        c1 == c2,
{
    if r1 < r2 {
        assert(r1 * cols + c1 < r2 * cols + c2) by (nonlinear_arith)
            requires
                r1 < r2,
                0 <= c1 < cols,
                0 <= c2,
        ;
    } else if r2 < r1 {
        assert(r2 * cols + c2 < r1 * cols + c1) by (nonlinear_arith)
            requires
                r2 < r1,
                0 <= c2 < cols,
                0 <= c1,
        ;
    }
}

impl RenderSnapshot {
    /// The cell at a grid position, when the position lies in the grid and in `cells`.
    pub open spec fn cell_at(self, row: int, col: int) -> Option<Cell> {
        if 0 <= row < self.rows && 0 <= col < self.cols && row * self.cols + col < self.cells@.len() {
            Some(self.cells@[row * self.cols + col])
        } else {
            None
        }
    }

    /// A snapshot of `max(cols, 1)` by `max(rows, 1)` empty cells, no cursor, the primary
    /// screen, and a damage record that asks for a full rebuild.
    pub fn new(cols: u16, rows: u16) -> (s: Self)
        ensures
            s.cols == if cols == 0 { 1 } else { cols },
            s.rows == if rows == 0 { 1 } else { rows },
            s.cells@ == Seq::new((s.cols * s.rows) as nat, |i: int| Cell::blank()),
            s.cursor is None,
            s.active_screen == ActiveScreen::Primary,
            s.damage@ == (DamageModel { full_rebuild: true, ..DamageModel::empty() }),
    {
        let cols = if cols == 0 { 1 } else { cols };
        let rows = if rows == 0 { 1 } else { rows };
        assert(cols as int * rows as int <= 65535 * 65535) by (nonlinear_arith)
            requires
                cols <= 65535,
                rows <= 65535,
        ;
        let n: usize = cols as usize * rows as usize;
        let mut cells: Vec<Cell> = Vec::new();
        let mut i: usize = 0;
        while i < n
            invariant
                i <= n,
                cells@ == Seq::new(i as nat, |k: int| Cell::blank()),
            decreases n - i,
        {
            cells.push(Cell::blank_cell());
            i = i + 1;
        }
        RenderSnapshot {
            cols,
            rows,
            cells,
            cursor: None,
            active_screen: ActiveScreen::Primary,
            damage: RenderDamage {
                full_rebuild: true,
                dirty_rows: BTreeSet::new(),
                selection_dirty: false,
                cursor_dirty: false,
                global_dirty: false,
            },
        }
    }

    /// The row-major index of a position inside the grid.
    fn index(&self, row: u16, col: u16) -> (i: Option<usize>)
        ensures
            (row < self.rows && col < self.cols) ==> i is Some && i->0 == row * self.cols + col,
            !(row < self.rows && col < self.cols) ==> i is None,
    {
        if row >= self.rows || col >= self.cols {
            return None;
        }
        proof {
            lemma_grid_index_bounds(row as int, col as int, self.rows as int, self.cols as int);
            assert(self.rows as int * self.cols as int <= 65535 * 65535) by (nonlinear_arith)
                requires
                    self.rows <= 65535,
                    self.cols <= 65535,
            ;
        }
        Some(row as usize * self.cols as usize + col as usize)
    }

    /// Replaces the cell at a position; a position outside the grid changes nothing.
    pub fn set_cell(&mut self, row: u16, col: u16, cell: Cell)
        ensures
            final(self).cols == old(self).cols,
            final(self).rows == old(self).rows,
            final(self).cursor == old(self).cursor,
            final(self).active_screen == old(self).active_screen,
            final(self).damage == old(self).damage,
            final(self).cells@ == if row < old(self).rows && col < old(self).cols && row
                * old(self).cols + col < old(self).cells@.len() {
                old(self).cells@.update(row * old(self).cols + col, cell)
            } else {
                old(self).cells@
            },
    {
        if let Some(index) = self.index(row, col) {
            if index < self.cells.len() {
                self.cells.set(index, cell);
            }
        }
    }

    /// Replaces the character of the cell at a position; a position outside the grid changes nothing.
    pub fn set_char(&mut self, row: u16, col: u16, ch: char)
        ensures
            final(self).cols == old(self).cols,
            final(self).rows == old(self).rows,
            final(self).cursor == old(self).cursor,
            final(self).active_screen == old(self).active_screen,
            final(self).damage == old(self).damage,
            final(self).cells@ == if row < old(self).rows && col < old(self).cols && row
                * old(self).cols + col < old(self).cells@.len() {
                old(self).cells@.update(
                    row * old(self).cols + col,
                    Cell { ch, ..old(self).cells@[row * old(self).cols + col] },
                )
            } else {
                old(self).cells@
            },
    {
        if let Some(index) = self.index(row, col) {
            if index < self.cells.len() {
                let mut cell = self.cells[index];
                cell.ch = ch;
                self.cells.set(index, cell);
            }
        }
    }

    /// Sets the cursor.
    pub fn set_cursor(&mut self, cursor: Option<CursorState>)
        ensures
            *final(self) == (RenderSnapshot { cursor, ..*old(self) }),
    {
        self.cursor = cursor;
    }

    /// Sets which screen the snapshot shows.
    pub fn set_active_screen(&mut self, active_screen: ActiveScreen)
        ensures
            *final(self) == (RenderSnapshot { active_screen, ..*old(self) }),
    {
        self.active_screen = active_screen;
    }

    /// The cell at a position, if the position lies in the grid.
    pub fn cell(&self, row: u16, col: u16) -> (c: Option<&Cell>)
        ensures
            c matches Some(v) ==> self.cell_at(row as int, col as int) == Some(*v),
            c is None ==> self.cell_at(row as int, col as int) is None,
    {
        match self.index(row, col) {
            Some(index) => {
                if index < self.cells.len() {
                    Some(&self.cells[index])
                } else {
                    None
                }
            },
            None => None,
        }
    }

    /// The character at a position, a space outside the grid.
    pub fn char_at(&self, row: u16, col: u16) -> (ch: char)
        ensures
            ch == match self.cell_at(row as int, col as int) {
                Some(c) => c.ch,
                None => ' ',
            },
    {
        match self.cell(row, col) {
            Some(cell) => cell.ch,
            None => ' ',
        }
    }
}

/// The cell the cursor is drawn in: present when the snapshot's cursor is visible and the
/// blink phase shows it, clamped into the grid.
pub fn cursor_cell(snapshot: &RenderSnapshot, cursor_visible: bool) -> (cell: Option<(u16, u16)>)
    ensures
        cell == (match snapshot.cursor {
            Some(c) => if c.visible && cursor_visible {
                Some(
                    (
                        if c.row < snapshot.rows { c.row } else if snapshot.rows == 0 { 0 } else { (snapshot.rows - 1) as u16 },
                        if c.col < snapshot.cols { c.col } else if snapshot.cols == 0 { 0 } else { (snapshot.cols - 1) as u16 },
                    ),
                )
            } else {
                None
            },
            None => None,
        }),
{
    match snapshot.cursor {
        Some(cursor) => {
            if cursor.visible && cursor_visible {
                let last_col = if snapshot.cols == 0 {
                    0
                } else {
                    snapshot.cols - 1
                };
                let last_row = if snapshot.rows == 0 {
                    0
                } else {
                    snapshot.rows - 1
                };
                let col = if cursor.col < last_col {
                    cursor.col
                } else {
                    last_col
                };
                let row = if cursor.row < last_row {
                    cursor.row
                } else {
                    last_row
                };
                Some((row, col))
            } else {
                None
            }
        },
        None => None,
    }
}

/// A selection between two cells, in either order.
#[derive(Clone, Copy, Debug, PartialEq, Eq, Structural)]
pub struct SelectionRange {
    pub start_row: u16,
    pub start_col: u16,
    pub end_row: u16,
    pub end_col: u16,
}

/// Reading order on cells: row first, then column.
pub open spec fn cell_le(r1: u16, c1: u16, r2: u16, c2: u16) -> bool {
    r1 < r2 || (r1 == r2 && c1 <= c2)
}

impl SelectionRange {
    /// The same range with its start no later than its end in reading order.
    pub open spec fn spec_normalized(self) -> SelectionRange {
        if cell_le(self.start_row, self.start_col, self.end_row, self.end_col) {
            self
        } else {
            SelectionRange {
                start_row: self.end_row,
                start_col: self.end_col,
                end_row: self.start_row,
                end_col: self.start_col,
            }
        }
    }

    /// The cell lies between the two ends, in reading order.
    pub open spec fn spec_contains(self, row: u16, col: u16) -> bool {
        let n = self.spec_normalized();
        cell_le(n.start_row, n.start_col, row, col) && cell_le(row, col, n.end_row, n.end_col)
    }

    /// Orders the two ends so that the start comes first in reading order.
    pub fn normalized(self) -> (n: Self)
        ensures
            n == self.spec_normalized(),
            cell_le(n.start_row, n.start_col, n.end_row, n.end_col),
    {
        if self.start_row < self.end_row || (self.start_row == self.end_row && self.start_col
            <= self.end_col) {
            self
        } else {
            Self {
                start_row: self.end_row,
                start_col: self.end_col,
                end_row: self.start_row,
                end_col: self.start_col,
            }
        }
    }

    /// Whether a cell is selected: it lies between the start and the end in reading order,
    /// both included.
    pub fn contains(self, row: u16, col: u16) -> (b: bool)
        ensures
            b == self.spec_contains(row, col),
    {
        let normalized = self.normalized();
        if row < normalized.start_row || row > normalized.end_row {
            return false;
        }
        if normalized.start_row == normalized.end_row {
            return row == normalized.start_row && col >= normalized.start_col && col
                <= normalized.end_col;
        }
        if row == normalized.start_row {
            return col >= normalized.start_col;
        }
        if row == normalized.end_row {
            return col <= normalized.end_col;
        }
        true
    }
}

/// Normalizing twice changes nothing more, and a range selects the same cells as the
/// range with its two ends swapped.
pub proof fn lemma_selection_symmetric(range: SelectionRange, row: u16, col: u16)
    ensures
        range.spec_normalized().spec_normalized() == range.spec_normalized(),
        range.spec_contains(row, col) == (SelectionRange {
            start_row: range.end_row,
            start_col: range.end_col,
            end_row: range.start_row,
            end_col: range.start_col,
        }).spec_contains(row, col),
{
}

/// Both ends of a range are always selected.
pub proof fn lemma_selection_contains_ends(range: SelectionRange)
    ensures
        range.spec_contains(range.start_row, range.start_col),
        range.spec_contains(range.end_row, range.end_col),
{
}

/// A cell's place in reading order: rows first, then columns.
pub open spec fn reading_key(row: u16, col: u16) -> int {
    row as int * 65536 + col as int
}

/// A selection covers exactly the cells that lie, in reading order, between its two ends,
/// both included, whichever end came first: every cell of a row strictly between the ends'
/// rows is selected, and on the ends' rows the cells from the start on and up to the end.
pub proof fn lemma_selection_is_reading_order_interval(range: SelectionRange, row: u16, col: u16)
    ensures
        range.spec_contains(row, col) <==> ({
            let a = reading_key(range.start_row, range.start_col);
            let b = reading_key(range.end_row, range.end_col);
            let k = reading_key(row, col);
            (a <= k <= b) || (b <= k <= a)
        }),
        range.start_row < row < range.end_row ==> range.spec_contains(row, col),
        range.end_row < row < range.start_row ==> range.spec_contains(row, col),
{
}

/// Whether two optional selections are the same.
pub fn same_selection(a: Option<SelectionRange>, b: Option<SelectionRange>) -> (r: bool)
    ensures
        r == (a == b),
{
    match (a, b) {
        (None, None) => true,
        (Some(x), Some(y)) => x.start_row == y.start_row && x.start_col == y.start_col
            && x.end_row == y.end_row && x.end_col == y.end_col,
        _ => false,
    }
}

/// What the renderer rebuilds of its cached geometry for a snapshot: a fresh cache of
/// every row, or the listed rows in place, and whether the window chrome too.
pub struct RebuildPlan {
    pub rebuild_all: bool,
    pub rows: Vec<u16>,
    pub chrome: bool,
}

/// The rows `0..rows` for which `keep` holds, in increasing order.
pub open spec fn rows_where(rows: u16, keep: spec_fn(u16) -> bool) -> Seq<u16>
    decreases rows,
{
    if rows == 0 {
        Seq::empty()
    } else {
        let last = (rows - 1) as u16;
        let before = rows_where(last, keep);
        if keep(last) {
            before.push(last)
        } else {
            before
        }
    }
}

/// Decides what to rebuild of the cached row geometry, given the size the cache was built
/// for and how many rows it holds, the snapshot's size and damage, and whether the
/// selection changed since the last frame. A size change, a cache of the wrong length or a
/// requested full rebuild rebuild everything; a changed or dirty selection rebuilds every
/// row; otherwise only the dirty rows inside the grid are rebuilt, in increasing order.
/// The chrome is rebuilt with everything, or when the damage is global.
pub fn plan_row_rebuild(
    cached_cols: u16,
    cached_rows: u16,
    cache_len: usize,
    snapshot: &RenderSnapshot,
    selection_changed: bool,
) -> (plan: RebuildPlan)
    ensures
        plan.rebuild_all == (cached_cols != snapshot.cols || cached_rows != snapshot.rows
            || snapshot.damage.full_rebuild || cache_len != snapshot.rows as usize),
        plan.chrome == (plan.rebuild_all || snapshot.damage.global_dirty),
        plan.rows@ == if plan.rebuild_all || selection_changed || snapshot.damage.selection_dirty {
            rows_where(snapshot.rows, |r: u16| true)
        } else {
            rows_where(snapshot.rows, |r: u16| snapshot.damage.dirty_rows@.contains(r))
        },
{
    let rebuild_all = cached_cols != snapshot.cols || cached_rows != snapshot.rows
        || snapshot.damage.full_rebuild || cache_len != snapshot.rows as usize;
    let every = rebuild_all || selection_changed || snapshot.damage.selection_dirty;
    let ghost keep: spec_fn(u16) -> bool = if every {
        |r: u16| true
    } else {
        |r: u16| snapshot.damage.dirty_rows@.contains(r)
    };
    let mut rows: Vec<u16> = Vec::new();
    let mut row: u16 = 0;
    while row < snapshot.rows
        invariant
            row <= snapshot.rows,
            rows@ == rows_where(row, keep),
            keep == (if every {
                |r: u16| true
            } else {
                |r: u16| snapshot.damage.dirty_rows@.contains(r)
            }),
        decreases snapshot.rows - row,
    {
        if every || snapshot.damage.dirty_rows.contains(&row) {
            rows.push(row);
        }
        row = row + 1;
        assert(rows_where(row, keep) == if keep((row - 1) as u16) {
            rows_where((row - 1) as u16, keep).push((row - 1) as u16)
        } else {
            rows_where((row - 1) as u16, keep)
        });
    }
    RebuildPlan { rebuild_all, rows, chrome: rebuild_all || snapshot.damage.global_dirty }
}

} // verus!
