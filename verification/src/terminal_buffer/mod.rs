//! The terminal state machine: two screens, scrollback history, the escape-sequence
//! parser, the current attributes and modes, and damage tracking.
pub mod color;
pub mod damage;
pub mod damage_law;
pub mod laws;
pub mod model;
pub mod ops;
pub mod parser;
pub mod types;

use std::collections::VecDeque;
use vstd::prelude::*;

use self::damage::DamageTracker;
use self::model::{SnapshotModel, TerminalModel, SCROLLBACK_CAPACITY};
use self::types::{blank_line, fit_row, grid_of, CellAttributes, ParserState, ScreenBuffer, TerminalCell, TerminalModes};
use crate::cells::{lemma_grid_index_bounds, lemma_grid_index_injective, ActiveScreen, CursorState, RenderSnapshot};

verus! {

/// A terminal: the state that the program's output drives and the renderer reads.
#[derive(Debug)]
pub struct TerminalBuffer {
    primary: ScreenBuffer,
    alternate: ScreenBuffer,
    active_screen: ActiveScreen,
    scrollback: VecDeque<Vec<TerminalCell>>,
    scrollback_capacity: usize,
    viewport_offset: usize,
    parser: ParserState,
    utf8_buffer: Vec<u8>,
    current_attr: CellAttributes,
    modes: TerminalModes,
    damage: DamageTracker,
}

/// The mathematical content of a render snapshot.
pub open spec fn snapshot_view(s: RenderSnapshot) -> SnapshotModel {
    SnapshotModel {
        cols: s.cols,
        rows: s.rows,
        cells: s.cells@,
        cursor: s.cursor,
        active_screen: s.active_screen,
        damage: s.damage@,
    }
}

/// A copy of a row.
fn copy_line(line: &Vec<TerminalCell>) -> (v: Vec<TerminalCell>)
    ensures
        v@ == line@,
{
    let mut v: Vec<TerminalCell> = Vec::new();
    let mut i: usize = 0;
    while i < line.len()
        invariant
            i <= line@.len(),
            v@ == line@.subrange(0, i as int),
        decreases line@.len() - i,
    {
        v.push(line[i]);
        i = i + 1;
        assert(v@ =~= line@.subrange(0, i as int));
    }
    assert(v@ =~= line@);
    v
}

/// A row cut or padded with empty cells to `cols` cells.
fn fit_line(line: &Vec<TerminalCell>, cols: usize) -> (v: Vec<TerminalCell>)
    ensures
        v@ == fit_row(line@, cols as nat),
{
    let mut v: Vec<TerminalCell> = Vec::new();
    let mut i: usize = 0;
    while i < cols
        invariant
            i <= cols,
            v@ == fit_row(line@, i as nat),
        decreases cols - i,
    {
        if i < line.len() {
            v.push(line[i]);
        } else {
            v.push(TerminalCell::blank_cell());
        }
        i = i + 1;
        assert(v@ =~= fit_row(line@, i as nat));
    }
    v
}

/// The rows held by a deque of row vectors.
pub open spec fn history_of(rows: Seq<Vec<TerminalCell>>) -> Seq<Seq<TerminalCell>> {
    Seq::new(rows.len(), |i: int| rows[i]@)
}

impl View for TerminalBuffer {
    type V = TerminalModel;

    closed spec fn view(&self) -> TerminalModel {
        TerminalModel {
            primary: self.primary@,
            alternate: self.alternate@,
            active_screen: self.active_screen,
            scrollback: history_of(self.scrollback@),
            scrollback_capacity: self.scrollback_capacity,
            viewport_offset: self.viewport_offset,
            parser: self.parser@,
            utf8_buffer: self.utf8_buffer@,
            current_attr: self.current_attr,
            modes: self.modes,
            damage: self.damage@,
        }
    }
}

impl TerminalBuffer {
    /// The terminal keeps its invariant.
    pub open spec fn wf(&self) -> bool {
        self@.wf()
    }

    /// A terminal of `max(cols, 1)` by `max(rows, 1)` empty cells on the primary screen,
    /// with no history and a request for a full redraw.
    pub fn new(cols: u16, rows: u16) -> (t: Self)
        ensures
            t@ == TerminalModel::initial(cols, rows),
            t.wf(),
    {
        let primary = ScreenBuffer::new(cols, rows);
        let alternate = ScreenBuffer::new(cols, rows);
        let mut damage = DamageTracker::new();
        damage.mark_full_rebuild();
        damage.mark_all_rows(rows);
        let t = TerminalBuffer {
            primary,
            alternate,
            active_screen: ActiveScreen::Primary,
            scrollback: VecDeque::new(),
            scrollback_capacity: SCROLLBACK_CAPACITY,
            viewport_offset: 0,
            parser: ParserState::Ground,
            utf8_buffer: Vec::new(),
            current_attr: CellAttributes::initial_attributes(),
            modes: TerminalModes::initial_modes(),
            damage,
        };
        assert(t@.scrollback =~= Seq::<Seq<TerminalCell>>::empty());
        assert(t@ =~= TerminalModel::initial(cols, rows));
        t
    }

    /// The shown screen.
    fn screen(&self) -> (s: &ScreenBuffer)
        ensures
            s@ == self@.screen(),
    {
        match self.active_screen {
            ActiveScreen::Primary => &self.primary,
            ActiveScreen::Alternate => &self.alternate,
        }
    }

    /// The shown screen, for changing it.
    fn screen_mut(&mut self) -> (s: &mut ScreenBuffer)
        ensures
            s@ == old(self)@.screen(),
            final(self)@ == old(self)@.with_screen(final(s)@),
    {
        match self.active_screen {
            ActiveScreen::Primary => &mut self.primary,
            ActiveScreen::Alternate => &mut self.alternate,
        }
    }

    /// Width of the shown screen.
    pub fn cols(&self) -> (c: u16)
        ensures
            c == self@.cols(),
    {
        self.screen().cols
    }

    /// Height of the shown screen.
    pub fn rows(&self) -> (r: u16)
        ensures
            r == self@.rows(),
    {
        self.screen().rows
    }

    /// How many rows the view is scrolled back into history.
    pub fn viewport_offset(&self) -> (o: usize)
        ensures
            o == self@.viewport_offset,
    {
        self.viewport_offset
    }

    /// How many rows of history there are.
    pub fn scrollback_len(&self) -> (n: usize)
        ensures
            n == self@.scrollback.len(),
    {
        self.scrollback.len()
    }

    /// The current terminal modes.
    pub fn modes(&self) -> (m: TerminalModes)
        ensures
            m == self@.modes,
    {
        self.modes
    }

    /// Resizes both screens without reflow and fits the history rows to the new width; a
    /// resize to the current size changes nothing.
    pub fn resize(&mut self, cols: u16, rows: u16)
        requires
            old(self).wf(),
        ensures
            final(self)@ == old(self)@.resize(cols, rows),
            final(self).wf(),
    {
        let c = if cols == 0 {
            1
        } else {
            cols
        };
        let r = if rows == 0 {
            1
        } else {
            rows
        };
        if self.primary.cols == c && self.primary.rows == r {
            return;
        }
        self.primary.resize(cols, rows);
        self.alternate.resize(cols, rows);
        self.resize_scrollback_rows(cols);
        if self.viewport_offset > self.scrollback.len() {
            self.viewport_offset = self.scrollback.len();
        }
        self.damage.mark_full_rebuild();
        self.damage.mark_all_rows(r);
        self.damage.mark_cursor_dirty();
        assert(self@ =~= old(self)@.resize(cols, rows));
    }

    /// Fits every history row to `cols` cells.
    fn resize_scrollback_rows(&mut self, cols: u16)
        ensures
            history_of(final(self).scrollback@) == Seq::new(
                history_of(old(self).scrollback@).len(),
                |i: int| fit_row(history_of(old(self).scrollback@)[i], cols as nat),
            ),
            final(self).primary == old(self).primary,
            final(self).alternate == old(self).alternate,
            final(self).active_screen == old(self).active_screen,
            final(self).scrollback_capacity == old(self).scrollback_capacity,
            final(self).viewport_offset == old(self).viewport_offset,
            final(self).parser == old(self).parser,
            final(self).utf8_buffer == old(self).utf8_buffer,
            final(self).current_attr == old(self).current_attr,
            final(self).modes == old(self).modes,
            final(self).damage == old(self).damage,
    {
        let ghost h = history_of(self.scrollback@);
        let n = self.scrollback.len();
        let mut k: usize = 0;
        while k < n
            invariant
                k <= n == h.len(),
                self.scrollback@.len() == n,
                history_of(self.scrollback@) == h.subrange(k as int, n as int) + Seq::new(
                    k as nat,
                    |i: int| fit_row(h[i], cols as nat),
                ),
                self.primary == old(self).primary,
                self.alternate == old(self).alternate,
                self.active_screen == old(self).active_screen,
                self.scrollback_capacity == old(self).scrollback_capacity,
                self.viewport_offset == old(self).viewport_offset,
                self.parser == old(self).parser,
                self.utf8_buffer == old(self).utf8_buffer,
                self.current_attr == old(self).current_attr,
                self.modes == old(self).modes,
                self.damage == old(self).damage,
            decreases n - k,
        {
            let ghost before = history_of(self.scrollback@);
            assert(before[0] == h[k as int]);
            let line = self.scrollback.pop_front().unwrap();
            assert(history_of(self.scrollback@) =~= before.subrange(1, before.len() as int));
            let fitted = fit_line(&line, cols as usize);
            let ghost fitted_row = fitted@;
            self.scrollback.push_back(fitted);
            assert(history_of(self.scrollback@) =~= before.subrange(1, before.len() as int).push(
                fitted_row,
            ));
            k = k + 1;
            assert(history_of(self.scrollback@) =~= h.subrange(k as int, n as int) + Seq::new(
                k as nat,
                |i: int| fit_row(h[i], cols as nat),
            ));
        }
        assert(history_of(self.scrollback@) =~= Seq::new(
            h.len(),
            |i: int| fit_row(h[i], cols as nat),
        ));
    }

    /// Scrolls the view back `offset` rows into history (no further than there is).
    pub fn set_viewport_offset(&mut self, offset: usize)
        requires
            old(self).wf(),
        ensures
            final(self)@ == old(self)@.set_viewport_offset(offset),
            final(self).wf(),
    {
        let next = if offset < self.scrollback.len() {
            offset
        } else {
            self.scrollback.len()
        };
        if self.viewport_offset != next {
            self.viewport_offset = next;
            self.damage.mark_full_rebuild();
            self.damage.mark_cursor_dirty();
        }
        assert(self@ =~= old(self)@.set_viewport_offset(offset));
    }

    /// A copy of history row `index`, oldest first.
    pub fn scrollback_row(&self, index: usize) -> (r: Option<Vec<TerminalCell>>)
        ensures
            r matches Some(v) ==> index < self@.scrollback.len() && v@ == self@.scrollback[index as int],
            r is None ==> index >= self@.scrollback.len(),
    {
        if index < self.scrollback.len() {
            Some(copy_line(&self.scrollback[index]))
        } else {
            None
        }
    }

    /// The rows on display; see `TerminalModel::visible_rows`.
    pub(crate) fn visible_rows(&self) -> (v: Vec<Vec<TerminalCell>>)
        requires
            self.wf(),
        ensures
            grid_of(v@) == self@.visible_rows(),
    {
        let rows = self.rows() as usize;
        let cols = self.cols() as usize;
        let screen = self.screen();
        if self.active_screen == ActiveScreen::Alternate {
            let mut out: Vec<Vec<TerminalCell>> = Vec::new();
            let mut r: usize = 0;
            while r < rows
                invariant
                    self.wf(),
                    screen@ == self@.screen(),
                    rows == screen.rows,
                    r <= rows,
                    out@.len() == r,
                    forall|i: int| 0 <= i < r ==> (#[trigger] out@[i])@ == screen@.grid[i],
                decreases rows - r,
            {
                out.push(screen.line(r as u16));
                r = r + 1;
            }
            assert(grid_of(out@) =~= self@.visible_rows());
            return out;
        }
        let history_len = self.scrollback.len();
        let total_rows = history_len + rows;
        let window_end = total_rows - self.viewport_offset;
        let window_start = window_end - rows;
        let mut visible: Vec<Vec<TerminalCell>> = Vec::new();
        let mut absolute_row = window_start;
        while absolute_row < window_end
            invariant
                self.wf(),
                self.active_screen == ActiveScreen::Primary,
                screen@ == self@.screen(),
                rows == screen.rows,
                cols == screen.cols,
                history_len == self@.scrollback.len(),
                window_end == history_len + rows - self.viewport_offset,
                window_start == window_end - rows,
                window_start <= absolute_row <= window_end,
                visible@.len() == absolute_row - window_start,
                forall|i: int|
                    0 <= i < visible@.len() ==> (#[trigger] visible@[i])@ == self@.visible_rows()[i],
            decreases window_end - absolute_row,
        {
            if absolute_row < history_len {
                visible.push(fit_line(&self.scrollback[absolute_row], cols));
            } else {
                visible.push(screen.line((absolute_row - history_len) as u16));
            }
            absolute_row = absolute_row + 1;
        }
        while visible.len() < rows
            invariant
                visible@.len() == rows,
                forall|i: int|
                    0 <= i < visible@.len() ==> (#[trigger] visible@[i])@ == self@.visible_rows()[i],
            decreases rows - visible@.len(),
        {
            visible.insert(0, blank_line(cols as u16));
        }
        assert(grid_of(visible@) =~= self@.visible_rows());
        visible
    }

    /// A picture of the terminal for the renderer; the damage collected so far goes with
    /// it and starts over empty.
    pub fn render_snapshot(&mut self, blink_visible: bool) -> (snapshot: RenderSnapshot)
        requires
            old(self).wf(),
        ensures
            old(self)@.snapshot_matches(blink_visible, snapshot_view(snapshot)),
            final(self)@ == old(self)@.with_damage(crate::cells::DamageModel::empty()),
            final(self).wf(),
    {
        let cols = self.cols();
        let rows = self.rows();
        let mut snapshot = RenderSnapshot::new(cols, rows);
        snapshot.set_active_screen(self.active_screen);
        snapshot.damage = self.damage.take();
        assert(self@ =~= old(self)@.with_damage(crate::cells::DamageModel::empty()));
        let visible = self.visible_rows();
        let ghost vis = old(self)@.visible_rows();
        assert(grid_of(visible@) == vis);
        proof {
            assert(cols as int * rows as int <= 65535 * 65535) by (nonlinear_arith)
                requires
                    cols <= 65535,
                    rows <= 65535,
            ;
        }
        let mut r: u16 = 0;
        while r < rows
            invariant
                self.wf(),
                self@ == old(self)@.with_damage(crate::cells::DamageModel::empty()),
                cols == old(self)@.cols(),
                rows == old(self)@.rows(),
                cols >= 1,
                rows >= 1,
                snapshot.cols == cols,
                snapshot.rows == rows,
                snapshot.active_screen == old(self)@.active_screen,
                snapshot.damage@ == old(self)@.damage,
                snapshot.cursor is None,
                snapshot.cells@.len() == rows * cols,
                grid_of(visible@) == vis,
                vis.len() == rows,
                forall|i: int| 0 <= i < rows ==> (#[trigger] vis[i]).len() == cols,
                r <= rows,
                forall|r2: int, c2: int|
                    0 <= r2 < r && 0 <= c2 < cols ==> #[trigger] snapshot.cells@[r2 * cols + c2]
                        == vis[r2][c2].to_cell(),
            decreases rows - r,
        {
            let mut c: u16 = 0;
            while c < cols
                invariant
                    cols >= 1,
                    rows >= 1,
                    snapshot.cols == cols,
                    snapshot.rows == rows,
                    snapshot.active_screen == old(self)@.active_screen,
                    snapshot.damage@ == old(self)@.damage,
                    snapshot.cursor is None,
                    snapshot.cells@.len() == rows * cols,
                    grid_of(visible@) == vis,
                    vis.len() == rows,
                    forall|i: int| 0 <= i < rows ==> (#[trigger] vis[i]).len() == cols,
                    r < rows,
                    c <= cols,
                    forall|r2: int, c2: int|
                        (0 <= r2 < r && 0 <= c2 < cols) || (r2 == r && 0 <= c2 < c)
                            ==> #[trigger] snapshot.cells@[r2 * cols + c2] == vis[r2][c2].to_cell(),
                decreases cols - c,
            {
                proof {
                    lemma_grid_index_bounds(r as int, c as int, rows as int, cols as int);
                }
                assert(visible@[r as int]@ == vis[r as int]);
                let cell = visible[r as usize][c as usize].into_cell();
                let ghost before = snapshot.cells@;
                snapshot.set_cell(r, c, cell);
                assert forall|r2: int, c2: int|
                    (0 <= r2 < r && 0 <= c2 < cols) || (r2 == r && 0 <= c2 < c + 1)
                        implies #[trigger] snapshot.cells@[r2 * cols + c2] == vis[r2][c2].to_cell() by {
                    if r2 != r || c2 != c {
                        lemma_grid_index_bounds(r2, c2, rows as int, cols as int);
                        if r2 * cols + c2 == r * cols + c {
                            lemma_grid_index_injective(r2, c2, r as int, c as int, cols as int);
                        }
                        assert(snapshot.cells@[r2 * cols + c2] == before[r2 * cols + c2]);
                    }
                }
                c = c + 1;
            }
            r = r + 1;
        }
        let screen = self.screen();
        let cursor_col = if screen.cursor_col < cols - 1 {
            screen.cursor_col
        } else {
            cols - 1
        };
        let cursor_allowed = self.active_screen == ActiveScreen::Alternate || self.viewport_offset
            == 0;
        snapshot.set_cursor(
            Some(
                CursorState {
                    row: screen.cursor_row,
                    col: cursor_col,
                    visible: self.modes.cursor_visible && blink_visible && cursor_allowed,
                },
            ),
        );
        snapshot
    }

    /// A picture of the shown screen's live grid with the cursor always drawn; unlike
    /// `render_snapshot` it ignores the history view and leaves the damage alone.
    pub fn render_state(&self) -> (snapshot: RenderSnapshot)
        requires
            self.wf(),
        ensures
            self@.state_matches(snapshot_view(snapshot)),
    {
        let cols = self.cols();
        let rows = self.rows();
        let screen = self.screen();
        let mut snapshot = RenderSnapshot::new(cols, rows);
        snapshot.set_active_screen(self.active_screen);
        proof {
            assert(cols as int * rows as int <= 65535 * 65535) by (nonlinear_arith)
                requires
                    cols <= 65535,
                    rows <= 65535,
            ;
        }
        let ghost g = screen@.grid;
        let mut r: u16 = 0;
        while r < rows
            invariant
                self.wf(),
                screen@ == self@.screen(),
                g == screen@.grid,
                cols == screen.cols,
                rows == screen.rows,
                cols >= 1,
                rows >= 1,
                snapshot.cols == cols,
                snapshot.rows == rows,
                snapshot.active_screen == self@.active_screen,
                snapshot.damage@ == (crate::cells::DamageModel {
                    full_rebuild: true,
                    ..crate::cells::DamageModel::empty()
                }),
                snapshot.cells@.len() == rows * cols,
                r <= rows,
                forall|r2: int, c2: int|
                    0 <= r2 < r && 0 <= c2 < cols ==> #[trigger] snapshot.cells@[r2 * cols + c2]
                        == g[r2][c2].to_cell(),
            decreases rows - r,
        {
            let mut c: u16 = 0;
            while c < cols
                invariant
                    screen@.wf(),
                    g == screen@.grid,
                    cols == screen.cols,
                    rows == screen.rows,
                    cols >= 1,
                    rows >= 1,
                    snapshot.cols == cols,
                    snapshot.rows == rows,
                    snapshot.active_screen == self@.active_screen,
                    snapshot.damage@ == (crate::cells::DamageModel {
                        full_rebuild: true,
                        ..crate::cells::DamageModel::empty()
                    }),
                    snapshot.cells@.len() == rows * cols,
                    r < rows,
                    c <= cols,
                    forall|r2: int, c2: int|
                        (0 <= r2 < r && 0 <= c2 < cols) || (r2 == r && 0 <= c2 < c)
                            ==> #[trigger] snapshot.cells@[r2 * cols + c2] == g[r2][c2].to_cell(),
                decreases cols - c,
            {
                proof {
                    lemma_grid_index_bounds(r as int, c as int, rows as int, cols as int);
                }
                let cell = screen.cell(r, c).into_cell();
                let ghost before = snapshot.cells@;
                snapshot.set_cell(r, c, cell);
                assert forall|r2: int, c2: int|
                    (0 <= r2 < r && 0 <= c2 < cols) || (r2 == r && 0 <= c2 < c + 1)
                        implies #[trigger] snapshot.cells@[r2 * cols + c2] == g[r2][c2].to_cell() by {
                    if r2 != r || c2 != c {
                        lemma_grid_index_bounds(r2, c2, rows as int, cols as int);
                        if r2 * cols + c2 == r * cols + c {
                            lemma_grid_index_injective(r2, c2, r as int, c as int, cols as int);
                        }
                        assert(snapshot.cells@[r2 * cols + c2] == before[r2 * cols + c2]);
                    }
                }
                c = c + 1;
            }
            r = r + 1;
        }
        let cursor_col = if screen.cursor_col < cols - 1 {
            screen.cursor_col
        } else {
            cols - 1
        };
        snapshot.set_cursor(Some(CursorState { row: screen.cursor_row, col: cursor_col, visible: true }));
        snapshot
    }
}

} // verus!
