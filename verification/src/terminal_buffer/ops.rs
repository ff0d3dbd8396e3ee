//! The screen operations that the parser drives: cursor motion, writing, erasing,
//! insertion and deletion, scrolling, and switching screens.
use vstd::prelude::*;

use super::model::{keep_last, TerminalModel, SCROLLBACK_CAPACITY};
use super::types::{blank_row, CellAttributes, ParserState, ScreenModel, TerminalCell};
use super::{history_of, TerminalBuffer};
use crate::cells::ActiveScreen;

verus! {

/// Pushing onto a history already cut to its capacity and cutting again keeps the same
/// rows as pushing onto the uncut history.
proof fn lemma_keep_last_push<T>(s: Seq<T>, x: T, cap: int)
    requires
        cap >= 1,
    ensures
        keep_last(keep_last(s, cap).push(x), cap) == keep_last(s.push(x), cap),
{
    let k = keep_last(s, cap);
    if s.len() > cap {
        assert(keep_last(k.push(x), cap) =~= keep_last(s.push(x), cap));
    } else {
        assert(k == s);
    }
}

/// Scrolling a whole-screen region up by `k` rows and then by one more is scrolling it up
/// by `k + 1`.
proof fn lemma_scrolled_up_step(s: ScreenModel, k: int)
    requires
        s.wf(),
        0 <= k,
    ensures
        s.scrolled_up(0, s.rows - 1, k).scrolled_up(0, s.rows - 1, 1) == s.scrolled_up(
            0,
            s.rows - 1,
            k + 1,
        ),
{
    assert(s.scrolled_up(0, s.rows - 1, k).scrolled_up(0, s.rows - 1, 1).grid =~= s.scrolled_up(
        0,
        s.rows - 1,
        k + 1,
    ).grid);
}

impl TerminalBuffer {
    /// Scrolls rows `top..=bottom` of the shown screen up by `count` rows; see
    /// `TerminalModel::scroll_up_in_region`.
    pub(crate) fn scroll_up_in_region(&mut self, top: u16, bottom: u16, count: u16)
        requires
            old(self).wf(),
            top <= bottom < old(self)@.rows(),
        ensures
            final(self)@ == old(self)@.scroll_up_in_region(top, bottom, count),
            final(self).wf(),
    {
        let rows = self.rows();
        let height = bottom - top + 1;
        let count = if count < height {
            count
        } else {
            height
        };
        if count == 0 {
            return;
        }
        if self.active_screen == ActiveScreen::Primary && top == 0 && bottom == rows - 1 {
            let ghost m0 = self@;
            let mut k: u16 = 0;
            while k < count
                invariant
                    self.wf(),
                    0 <= k <= count <= rows,
                    rows == m0.primary.rows,
                    bottom == rows - 1,
                    m0.active_screen == ActiveScreen::Primary,
                    m0.wf(),
                    self@ == (TerminalModel {
                        primary: m0.primary.scrolled_up(0, bottom as int, k as int),
                        scrollback: keep_last(
                            m0.scrollback + m0.primary.grid.subrange(0, k as int),
                            m0.scrollback_capacity as int,
                        ),
                        viewport_offset: if k == 0 {
                            m0.viewport_offset
                        } else {
                            0
                        },
                        ..m0
                    }),
                decreases count - k,
            {
                let ghost before = self@;
                let row = self.primary.shift_up_one();
                let ghost row_view = row@;
                self.scrollback.push_back(row);
                assert(history_of(self.scrollback@) =~= before.scrollback.push(row_view));
                let ghost mid = self@;
                while self.scrollback.len() > self.scrollback_capacity
                    invariant
                        self@ == (TerminalModel { scrollback: history_of(self.scrollback@), ..mid }),
                        self.scrollback@.len() <= self.scrollback_capacity + 1,
                        self.scrollback_capacity == SCROLLBACK_CAPACITY,
                        keep_last(history_of(self.scrollback@), self.scrollback_capacity as int)
                            == keep_last(
                            before.scrollback.push(row_view),
                            self.scrollback_capacity as int,
                        ),
                    decreases self.scrollback@.len(),
                {
                    let ghost h = history_of(self.scrollback@);
                    self.scrollback.pop_front();
                    assert(keep_last(history_of(self.scrollback@), self.scrollback_capacity as int)
                        =~= keep_last(h, self.scrollback_capacity as int));
                }
                assert(history_of(self.scrollback@) == keep_last(
                    history_of(self.scrollback@),
                    self.scrollback_capacity as int,
                ));
                self.viewport_offset = 0;
                assert(row_view == m0.primary.grid[k as int]);
                assert(before.primary == m0.primary.scrolled_up(0, bottom as int, k as int));
                assert(self.primary@ == before.primary.scrolled_up(0, bottom as int, 1));
                proof {
                    lemma_scrolled_up_step(m0.primary, k as int);
                    lemma_keep_last_push(
                        m0.scrollback + m0.primary.grid.subrange(0, k as int),
                        m0.primary.grid[k as int],
                        m0.scrollback_capacity as int,
                    );
                    assert(m0.scrollback + m0.primary.grid.subrange(0, k + 1) =~= (m0.scrollback
                        + m0.primary.grid.subrange(0, k as int)).push(m0.primary.grid[k as int]));
                }
                k = k + 1;
                assert(self.primary@ == m0.primary.scrolled_up(0, bottom as int, k as int));
                assert(history_of(self.scrollback@) == keep_last(
                    m0.scrollback + m0.primary.grid.subrange(0, k as int),
                    m0.scrollback_capacity as int,
                ));
                assert(self@ =~= (TerminalModel {
                    primary: m0.primary.scrolled_up(0, bottom as int, k as int),
                    scrollback: keep_last(
                        m0.scrollback + m0.primary.grid.subrange(0, k as int),
                        m0.scrollback_capacity as int,
                    ),
                    viewport_offset: 0,
                    ..m0
                }));
            }
            self.damage.mark_all_rows(rows);
            assert(self@ =~= old(self)@.scroll_up_in_region(top, bottom, count));
            return;
        }
        let screen = self.screen_mut();
        screen.scroll_region_up(top, bottom, count);
        self.damage.mark_rows(top, bottom);
        assert(self@ =~= old(self)@.scroll_up_in_region(top, bottom, count));
    }

    /// Scrolls rows `top..=bottom` of the shown screen down by `count` rows.
    pub(crate) fn scroll_down_in_region(&mut self, top: u16, bottom: u16, count: u16)
        requires
            old(self).wf(),
            top <= bottom < old(self)@.rows(),
        ensures
            final(self)@ == old(self)@.scroll_down_in_region(top, bottom, count),
            final(self).wf(),
    {
        let height = bottom - top + 1;
        let count = if count < height {
            count
        } else {
            height
        };
        if count == 0 {
            return;
        }
        let screen = self.screen_mut();
        screen.scroll_region_down(top, bottom, count);
        self.damage.mark_rows(top, bottom);
        assert(self@ =~= old(self)@.scroll_down_in_region(top, bottom, count));
    }

    fn scroll_up(&mut self, count: u16)
        requires
            old(self).wf(),
        ensures
            final(self)@ == old(self)@.scroll_up(count),
            final(self).wf(),
    {
        let top = self.screen().scroll_top;
        let bottom = self.screen().scroll_bottom;
        let count = if count == 0 {
            1
        } else {
            count
        };
        self.scroll_up_in_region(top, bottom, count);
    }

    fn scroll_down(&mut self, count: u16)
        requires
            old(self).wf(),
        ensures
            final(self)@ == old(self)@.scroll_down(count),
            final(self).wf(),
    {
        let top = self.screen().scroll_top;
        let bottom = self.screen().scroll_bottom;
        let count = if count == 0 {
            1
        } else {
            count
        };
        self.scroll_down_in_region(top, bottom, count);
    }

    /// Moves down a row, scrolling the region up when the cursor is on its bottom row.
    pub(crate) fn index_down(&mut self)
        requires
            old(self).wf(),
        ensures
            final(self)@ == old(self)@.index_down(),
            final(self).wf(),
    {
        let cursor_row = self.screen().cursor_row;
        let scroll_bottom = self.screen().scroll_bottom;
        let rows = self.screen().rows;
        if cursor_row == scroll_bottom {
            self.scroll_up(1);
        } else {
            let next = if cursor_row + 1 < rows - 1 {
                cursor_row + 1
            } else {
                rows - 1
            };
            let screen = self.screen_mut();
            screen.cursor_row = next;
            assert(self@ =~= old(self)@.index_down());
        }
    }

    fn wrap_to_next_line(&mut self)
        requires
            old(self).wf(),
        ensures
            final(self)@ == old(self)@.wrap_to_next_line(),
            final(self).wf(),
    {
        let screen = self.screen_mut();
        screen.wrap_pending = false;
        screen.cursor_col = 0;
        self.index_down();
    }

    /// Back to the first column.
    pub(crate) fn carriage_return(&mut self)
        requires
            old(self).wf(),
        ensures
            final(self)@ == old(self)@.carriage_return(),
            final(self).wf(),
    {
        let screen = self.screen_mut();
        screen.cursor_col = 0;
        screen.wrap_pending = false;
        self.damage.mark_cursor_dirty();
        assert(self@ =~= old(self)@.carriage_return());
    }

    /// A line feed.
    pub(crate) fn line_feed(&mut self)
        requires
            old(self).wf(),
        ensures
            final(self)@ == old(self)@.line_feed(),
            final(self).wf(),
    {
        self.wrap_to_next_line();
        self.damage.mark_cursor_dirty();
        assert(self@ =~= old(self)@.line_feed());
    }

    /// Next line.
    pub(crate) fn next_line(&mut self)
        requires
            old(self).wf(),
        ensures
            final(self)@ == old(self)@.next_line(),
            final(self).wf(),
    {
        self.line_feed();
        let screen = self.screen_mut();
        screen.cursor_col = 0;
        self.damage.mark_cursor_dirty();
        assert(self@ =~= old(self)@.next_line());
    }

    /// Moves up a row, scrolling the region down when the cursor is on its top row.
    pub(crate) fn reverse_index(&mut self)
        requires
            old(self).wf(),
        ensures
            final(self)@ == old(self)@.reverse_index(),
            final(self).wf(),
    {
        let screen = self.screen_mut();
        screen.wrap_pending = false;
        let ghost m = self@;
        assert(m =~= old(self)@.no_wrap());
        let cursor_row = self.screen().cursor_row;
        let scroll_top = self.screen().scroll_top;
        if cursor_row == scroll_top {
            self.scroll_down(1);
        } else {
            let screen = self.screen_mut();
            screen.cursor_row = if cursor_row == 0 {
                0
            } else {
                cursor_row - 1
            };
        }
        self.damage.mark_cursor_dirty();
        assert(self@ =~= old(self)@.reverse_index());
    }

    /// One column left.
    pub(crate) fn backspace(&mut self)
        requires
            old(self).wf(),
        ensures
            final(self)@ == old(self)@.backspace(),
            final(self).wf(),
    {
        let col = self.screen().cursor_col;
        let screen = self.screen_mut();
        screen.wrap_pending = false;
        screen.cursor_col = if col == 0 {
            0
        } else {
            col - 1
        };
        self.damage.mark_cursor_dirty();
        assert(self@ =~= old(self)@.backspace());
    }

    /// To the next tab stop.
    pub(crate) fn tab(&mut self)
        requires
            old(self).wf(),
        ensures
            final(self)@ == old(self)@.tab(),
            final(self).wf(),
    {
        let next_stop: usize = ((self.screen().cursor_col as usize / 8) + 1) * 8;
        let last: usize = self.cols() as usize - 1;
        let col = if next_stop < last {
            next_stop
        } else {
            last
        };
        let screen = self.screen_mut();
        screen.cursor_col = col as u16;
        screen.wrap_pending = false;
        self.damage.mark_cursor_dirty();
        assert(self@ =~= old(self)@.tab());
    }

    /// Moves the cursor by the given deltas, clamped into the screen.
    pub(crate) fn move_cursor_relative(&mut self, row_delta: i64, col_delta: i64)
        requires
            old(self).wf(),
            i32::MIN <= row_delta <= -(i32::MIN as int),
            i32::MIN <= col_delta <= -(i32::MIN as int),
        ensures
            final(self)@ == old(self)@.move_cursor_relative(row_delta as int, col_delta as int),
            final(self).wf(),
    {
        let rows = self.rows() as i64;
        let cols = self.cols() as i64;
        let row = self.screen().cursor_row as i64 + row_delta;
        let col = self.screen().cursor_col as i64 + col_delta;
        let row = if row < 0 {
            0
        } else if row > rows - 1 {
            rows - 1
        } else {
            row
        };
        let col = if col < 0 {
            0
        } else if col > cols - 1 {
            cols - 1
        } else {
            col
        };
        let screen = self.screen_mut();
        screen.cursor_row = row as u16;
        screen.cursor_col = col as u16;
        screen.wrap_pending = false;
        self.damage.mark_cursor_dirty();
        assert(self@ =~= old(self)@.move_cursor_relative(row_delta as int, col_delta as int));
    }

    /// Puts the cursor at a position inside the grid.
    pub(crate) fn set_cursor_position(&mut self, row: u16, col: u16)
        requires
            old(self).wf(),
        ensures
            final(self)@ == old(self)@.set_cursor_position(row, col),
            final(self).wf(),
    {
        let rows = self.rows();
        let cols = self.cols();
        let screen = self.screen_mut();
        screen.cursor_row = if row < rows - 1 {
            row
        } else {
            rows - 1
        };
        screen.cursor_col = if col < cols - 1 {
            col
        } else {
            cols - 1
        };
        screen.wrap_pending = false;
        self.damage.mark_cursor_dirty();
        assert(self@ =~= old(self)@.set_cursor_position(row, col));
    }

    /// Puts the cursor on a row inside the grid.
    pub(crate) fn set_cursor_row(&mut self, row: u16)
        requires
            old(self).wf(),
        ensures
            final(self)@ == old(self)@.set_cursor_row(row),
            final(self).wf(),
    {
        let rows = self.rows();
        let screen = self.screen_mut();
        screen.cursor_row = if row < rows - 1 {
            row
        } else {
            rows - 1
        };
        screen.wrap_pending = false;
        self.damage.mark_cursor_dirty();
        assert(self@ =~= old(self)@.set_cursor_row(row));
    }

    /// Puts the cursor in a column inside the grid.
    pub(crate) fn set_cursor_col(&mut self, col: u16)
        requires
            old(self).wf(),
        ensures
            final(self)@ == old(self)@.set_cursor_col(col),
            final(self).wf(),
    {
        let cols = self.cols();
        let screen = self.screen_mut();
        screen.cursor_col = if col < cols - 1 {
            col
        } else {
            cols - 1
        };
        screen.wrap_pending = false;
        self.damage.mark_cursor_dirty();
        assert(self@ =~= old(self)@.set_cursor_col(col));
    }

    /// Remembers the cursor position.
    pub(crate) fn save_cursor(&mut self)
        requires
            old(self).wf(),
        ensures
            final(self)@ == old(self)@.save_cursor(),
            final(self).wf(),
    {
        let row = self.screen().cursor_row;
        let col = self.screen().cursor_col;
        let screen = self.screen_mut();
        screen.saved_cursor = Some((row, col));
        assert(self@ =~= old(self)@.save_cursor());
    }

    /// Returns to the remembered cursor position.
    pub(crate) fn restore_cursor(&mut self)
        requires
            old(self).wf(),
        ensures
            final(self)@ == old(self)@.restore_cursor(),
            final(self).wf(),
    {
        if let Some((row, col)) = self.screen().saved_cursor {
            self.set_cursor_position(row, col);
        }
    }

    /// Writes one character at the cursor; see `TerminalModel::write_char`.
    pub(crate) fn write_char(&mut self, ch: char)
        requires
            old(self).wf(),
        ensures
            final(self)@ == old(self)@.write_char(ch),
            final(self).wf(),
    {
        if self.screen().wrap_pending {
            self.wrap_to_next_line();
        }
        let ghost m = self@;
        let row = self.screen().cursor_row;
        let col = self.screen().cursor_col;
        let cell = TerminalCell {
            ch,
            fg: self.current_attr.fg,
            bg: self.current_attr.bg,
            flags: self.current_attr.flags,
        };
        let screen = self.screen_mut();
        screen.set_cell(row, col, cell);
        if screen.cursor_col + 1 >= screen.cols {
            screen.wrap_pending = true;
        } else {
            screen.cursor_col = screen.cursor_col + 1;
        }
        self.viewport_offset = 0;
        self.damage.mark_row(row);
        self.damage.mark_cursor_dirty();
        assert(self@ =~= old(self)@.write_char(ch));
    }

    /// Erases part of the cursor row: from the cursor on (0), up to the cursor (1), or all of it (2).
    pub(crate) fn erase_in_line(&mut self, mode: usize)
        requires
            old(self).wf(),
        ensures
            final(self)@ == old(self)@.erase_in_line(mode),
            final(self).wf(),
    {
        let row = self.screen().cursor_row;
        let col = self.screen().cursor_col;
        let cols = self.cols();
        if mode == 0 {
            let screen = self.screen_mut();
            screen.blank_range(row, col, cols);
            self.damage.mark_row(row);
        } else if mode == 1 {
            let screen = self.screen_mut();
            screen.blank_range(row, 0, col + 1);
            self.damage.mark_row(row);
        } else if mode == 2 {
            self.clear_row(row);
        }
        let screen = self.screen_mut();
        screen.wrap_pending = false;
        proof {
            let s = old(self)@.screen();
            let line = s.grid[row as int];
            if mode == 0 {
                assert(Seq::new(
                    s.cols as nat,
                    |c: int|
                        if col <= c < cols {
                            TerminalCell::blank()
                        } else {
                            line[c]
                        },
                ) =~= Seq::new(
                    s.cols as nat,
                    |c: int|
                        if c >= col {
                            TerminalCell::blank()
                        } else {
                            line[c]
                        },
                ));
            } else if mode == 1 {
                assert(Seq::new(
                    s.cols as nat,
                    |c: int|
                        if 0 <= c < col + 1 {
                            TerminalCell::blank()
                        } else {
                            line[c]
                        },
                ) =~= Seq::new(
                    s.cols as nat,
                    |c: int|
                        if c <= col {
                            TerminalCell::blank()
                        } else {
                            line[c]
                        },
                ));
            }
        }
        assert(self@ =~= old(self)@.erase_in_line(mode));
    }

    /// Erases part of the screen: from the cursor on (0), up to the cursor (1), or all of it (2).
    pub(crate) fn erase_in_display(&mut self, mode: usize)
        requires
            old(self).wf(),
        ensures
            final(self)@ == old(self)@.erase_in_display(mode),
            final(self).wf(),
    {
        let rows = self.rows();
        let cursor_row = self.screen().cursor_row;
        if mode == 0 {
            self.erase_in_line(0);
            let screen = self.screen_mut();
            screen.clear_rows(cursor_row + 1, rows);
            self.damage.mark_rows(cursor_row + 1, rows - 1);
        } else if mode == 1 {
            let screen = self.screen_mut();
            screen.clear_rows(0, cursor_row);
            if cursor_row > 0 {
                self.damage.mark_rows(0, cursor_row - 1);
            }
            self.erase_in_line(1);
        } else if mode == 2 {
            let screen = self.screen_mut();
            screen.clear_rows(0, rows);
            self.damage.mark_all_rows(rows);
        }
        let screen = self.screen_mut();
        screen.wrap_pending = false;
        proof {
            let s = old(self)@.screen();
            if mode == 0 {
                let m = old(self)@.erase_in_line(0);
                let ms = m.screen();
                assert(Seq::new(
                    ms.rows as nat,
                    |r: int|
                        if cursor_row + 1 <= r < rows {
                            blank_row(ms.cols as nat)
                        } else {
                            ms.grid[r]
                        },
                ) =~= Seq::new(
                    ms.rows as nat,
                    |r: int|
                        if r > cursor_row {
                            blank_row(ms.cols as nat)
                        } else {
                            ms.grid[r]
                        },
                ));
            } else if mode == 1 {
                assert(Seq::new(
                    s.rows as nat,
                    |r: int|
                        if 0 <= r < cursor_row {
                            blank_row(s.cols as nat)
                        } else {
                            s.grid[r]
                        },
                ) =~= Seq::new(
                    s.rows as nat,
                    |r: int|
                        if r < cursor_row {
                            blank_row(s.cols as nat)
                        } else {
                            s.grid[r]
                        },
                ));
            } else if mode == 2 {
                assert(Seq::new(
                    s.rows as nat,
                    |r: int|
                        if 0 <= r < rows {
                            blank_row(s.cols as nat)
                        } else {
                            s.grid[r]
                        },
                ) =~= Seq::new(s.rows as nat, |r: int| blank_row(s.cols as nat)));
            }
        }
        assert(self@ =~= old(self)@.erase_in_display(mode));
    }

    /// Inserts empty cells at the cursor, shifting the rest of the row right.
    pub(crate) fn insert_chars(&mut self, count: u16)
        requires
            old(self).wf(),
        ensures
            final(self)@ == old(self)@.insert_chars(count),
            final(self).wf(),
    {
        let row = self.screen().cursor_row;
        let col = self.screen().cursor_col;
        let room = self.cols() - col;
        let count = if count == 0 {
            1
        } else {
            count
        };
        let count = if count < room {
            count
        } else {
            room
        };
        let screen = self.screen_mut();
        screen.insert_blanks(row, col, count);
        screen.wrap_pending = false;
        self.damage.mark_row(row);
        assert(self@ =~= old(self)@.insert_chars(count));
    }

    /// Deletes cells at the cursor, shifting the rest of the row left.
    pub(crate) fn delete_chars(&mut self, count: u16)
        requires
            old(self).wf(),
        ensures
            final(self)@ == old(self)@.delete_chars(count),
            final(self).wf(),
    {
        let row = self.screen().cursor_row;
        let col = self.screen().cursor_col;
        let room = self.cols() - col;
        let count = if count == 0 {
            1
        } else {
            count
        };
        let count = if count < room {
            count
        } else {
            room
        };
        let screen = self.screen_mut();
        screen.remove_cells(row, col, count);
        screen.wrap_pending = false;
        self.damage.mark_row(row);
        assert(self@ =~= old(self)@.delete_chars(count));
    }

    /// Inserts blank lines at the cursor row, inside the scroll region.
    pub(crate) fn insert_lines(&mut self, count: u16)
        requires
            old(self).wf(),
        ensures
            final(self)@ == old(self)@.insert_lines(count),
            final(self).wf(),
    {
        let cursor_row = self.screen().cursor_row;
        let top = self.screen().scroll_top;
        let bottom = self.screen().scroll_bottom;
        if cursor_row < top || cursor_row > bottom {
            return;
        }
        let count = if count == 0 {
            1
        } else {
            count
        };
        self.scroll_down_in_region(cursor_row, bottom, count);
        let screen = self.screen_mut();
        screen.wrap_pending = false;
        assert(self@ =~= old(self)@.insert_lines(count));
    }

    /// Deletes lines at the cursor row, inside the scroll region.
    pub(crate) fn delete_lines(&mut self, count: u16)
        requires
            old(self).wf(),
        ensures
            final(self)@ == old(self)@.delete_lines(count),
            final(self).wf(),
    {
        let cursor_row = self.screen().cursor_row;
        let top = self.screen().scroll_top;
        let bottom = self.screen().scroll_bottom;
        if cursor_row < top || cursor_row > bottom {
            return;
        }
        let count = if count == 0 {
            1
        } else {
            count
        };
        self.scroll_up_in_region(cursor_row, bottom, count);
        let screen = self.screen_mut();
        screen.wrap_pending = false;
        assert(self@ =~= old(self)@.delete_lines(count));
    }

    /// Sets the scroll region (the whole screen when invalid) and homes the cursor.
    pub(crate) fn set_scroll_region(&mut self, top: u16, bottom: u16)
        requires
            old(self).wf(),
        ensures
            final(self)@ == old(self)@.set_scroll_region(top, bottom),
            final(self).wf(),
    {
        let rows = self.rows();
        let screen = self.screen_mut();
        if top >= bottom || bottom >= rows {
            screen.scroll_top = 0;
            screen.scroll_bottom = rows - 1;
        } else {
            screen.scroll_top = top;
            screen.scroll_bottom = bottom;
        }
        let ghost m = self@;
        assert(m =~= old(self)@.with_screen(
            ScreenModel {
                scroll_top: if top < bottom && bottom < rows {
                    top
                } else {
                    0
                },
                scroll_bottom: if top < bottom && bottom < rows {
                    bottom
                } else {
                    (rows - 1) as u16
                },
                ..old(self)@.screen()
            },
        ));
        self.set_cursor_position(0, 0);
    }

    /// Empties a row of the shown screen.
    fn clear_row(&mut self, row: u16)
        requires
            old(self).wf(),
            row < old(self)@.rows(),
        ensures
            final(self)@ == old(self)@.with_screen(
                old(self)@.screen().with_row(row as int, blank_row(old(self)@.cols() as nat)),
            ).with_damage(old(self)@.damage.mark_row(row)),
            final(self).wf(),
    {
        let screen = self.screen_mut();
        screen.clear_row(row);
        self.damage.mark_row(row);
        assert(self@ =~= old(self)@.with_screen(
            old(self)@.screen().with_row(row as int, blank_row(old(self)@.cols() as nat)),
        ).with_damage(old(self)@.damage.mark_row(row)));
    }

    /// Shows the alternate screen, cleared; nothing happens when it is already shown.
    fn enter_alternate_screen(&mut self)
        requires
            old(self).wf(),
        ensures
            final(self)@ == old(self)@.enter_alternate_screen(),
            final(self).wf(),
    {
        if self.active_screen == ActiveScreen::Alternate {
            return;
        }
        self.alternate.clear();
        self.active_screen = ActiveScreen::Alternate;
        let rows = self.rows();
        self.damage.mark_full_rebuild();
        self.damage.mark_all_rows(rows);
        self.damage.mark_cursor_dirty();
        assert(self@ =~= old(self)@.enter_alternate_screen());
    }

    /// Returns to the primary screen; nothing happens when it is already shown.
    fn exit_alternate_screen(&mut self)
        requires
            old(self).wf(),
        ensures
            final(self)@ == old(self)@.exit_alternate_screen(),
            final(self).wf(),
    {
        if self.active_screen == ActiveScreen::Primary {
            return;
        }
        self.active_screen = ActiveScreen::Primary;
        self.viewport_offset = 0;
        let rows = self.rows();
        self.damage.mark_full_rebuild();
        self.damage.mark_all_rows(rows);
        self.damage.mark_cursor_dirty();
        assert(self@ =~= old(self)@.exit_alternate_screen());
    }

    /// Sets or resets one DEC private mode.
    fn private_mode(&mut self, param: usize, enabled: bool)
        requires
            old(self).wf(),
        ensures
            final(self)@ == old(self)@.private_mode(param, enabled),
            final(self).wf(),
    {
        if param == 47 || param == 1047 || param == 1049 {
            if enabled {
                self.enter_alternate_screen();
            } else {
                self.exit_alternate_screen();
            }
        } else if param == 1048 {
            if enabled {
                self.save_cursor();
            } else {
                self.restore_cursor();
            }
        } else if param == 25 {
            self.modes.cursor_visible = enabled;
            assert(self@ =~= old(self)@.private_mode(param, enabled));
        } else if param == 2004 {
            self.modes.bracketed_paste = enabled;
            assert(self@ =~= old(self)@.private_mode(param, enabled));
        } else if param == 1 {
            self.modes.application_cursor = enabled;
            assert(self@ =~= old(self)@.private_mode(param, enabled));
        } else if param == 6 {
            self.modes.origin_mode = enabled;
            assert(self@ =~= old(self)@.private_mode(param, enabled));
        }
    }

    /// Sets (`enabled`) or resets the DEC private modes listed in `params`, in order.
    pub(crate) fn set_private_mode(&mut self, params: &[Option<usize>], enabled: bool)
        requires
            old(self).wf(),
        ensures
            final(self)@ == old(self)@.set_private_modes(params@, enabled),
            final(self).wf(),
    {
        let mut i: usize = 0;
        assert(params@.subrange(0, params@.len() as int) =~= params@);
        while i < params.len()
            invariant
                self.wf(),
                i <= params@.len(),
                self@.set_private_modes(params@.subrange(i as int, params@.len() as int), enabled)
                    == old(self)@.set_private_modes(params@, enabled),
            decreases params@.len() - i,
        {
            let ghost rest = params@.subrange(i as int, params@.len() as int);
            assert(rest.drop_first() =~= params@.subrange(i + 1, params@.len() as int));
            match params[i] {
                Some(param) => self.private_mode(param, enabled),
                None => {},
            }
            i = i + 1;
        }
        assert(params@.subrange(0, params@.len() as int) =~= params@);
    }

    /// Full reset of screens, history, parser and attributes.
    pub(crate) fn reset(&mut self)
        requires
            old(self).wf(),
        ensures
            final(self)@ == old(self)@.reset(),
            final(self).wf(),
    {
        self.primary.clear();
        self.alternate.clear();
        self.active_screen = ActiveScreen::Primary;
        self.scrollback.clear();
        self.viewport_offset = 0;
        self.utf8_buffer.clear();
        self.parser = ParserState::Ground;
        self.current_attr = CellAttributes::initial_attributes();
        let rows = self.rows();
        self.damage.mark_full_rebuild();
        self.damage.mark_all_rows(rows);
        self.damage.mark_cursor_dirty();
        assert(history_of(self.scrollback@) =~= Seq::<Seq<TerminalCell>>::empty());
        assert(self@ =~= old(self)@.reset());
    }
}

} // verus!
