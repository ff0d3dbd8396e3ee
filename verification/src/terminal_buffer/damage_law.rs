//! Damage covers every change: each row of the shown screen that output changes is
//! marked dirty, unless a full rebuild is asked for, and marks are only ever added.
use vstd::prelude::*;

use super::model::{dec_or_zero, move_count, param_or_spec, parse_csi_spec, TerminalModel};
use super::types::{ParserModel, ScreenModel};
use crate::cells::DamageModel;

verus! {

/// `later` keeps every mark of `earlier`.
pub open spec fn damage_grows(earlier: DamageModel, later: DamageModel) -> bool {
    &&& earlier.full_rebuild ==> later.full_rebuild
    &&& earlier.dirty_rows.subset_of(later.dirty_rows)
}

/// Going from `before` to `after`, the damage only grew, and either a full rebuild is
/// asked for or the same screen is shown with the same height and every row of it that
/// changed is marked dirty.
pub open spec fn changed_rows_marked(before: TerminalModel, after: TerminalModel) -> bool {
    &&& damage_grows(before.damage, after.damage)
    &&& after.damage.full_rebuild || {
        &&& after.active_screen == before.active_screen
        &&& after.screen().rows == before.screen().rows
        &&& forall|r: int|
            0 <= r < before.screen().rows && #[trigger] after.screen().grid[r]
                != before.screen().grid[r] ==> after.damage.dirty_rows.contains(r as u16)
    }
}

/// Both screens keep their width and height.
pub open spec fn keeps_size(before: TerminalModel, after: TerminalModel) -> bool {
    &&& after.primary.cols == before.primary.cols
    &&& after.primary.rows == before.primary.rows
    &&& after.alternate.cols == before.alternate.cols
    &&& after.alternate.rows == before.alternate.rows
}

/// Both screens have rows, a grid of as many rows as they say, and the cursor on one of
/// them.
pub open spec fn grids_shaped(m: TerminalModel) -> bool {
    &&& screen_shaped(m.primary)
    &&& screen_shaped(m.alternate)
}

/// The screen has rows, a grid of that many rows, and the cursor on one of them.
pub open spec fn screen_shaped(s: ScreenModel) -> bool {
    &&& s.rows >= 1
    &&& s.grid.len() == s.rows
    &&& s.cursor_row < s.rows
}

/// Nothing changed, nothing needs marking.
proof fn lemma_marked_refl(m: TerminalModel)
    ensures
        changed_rows_marked(m, m),
{
}

/// Two steps that each mark what they change together mark what they change.
proof fn lemma_marked_trans(a: TerminalModel, b: TerminalModel, c: TerminalModel)
    requires
        changed_rows_marked(a, b),
        changed_rows_marked(b, c),
    ensures
        changed_rows_marked(a, c),
{
    if !c.damage.full_rebuild {
        assert forall|r: int|
            0 <= r < a.screen().rows && #[trigger] c.screen().grid[r] != a.screen().grid[r]
                implies c.damage.dirty_rows.contains(r as u16) by {
            if b.screen().grid[r] != a.screen().grid[r] {
                assert(b.damage.dirty_rows.contains(r as u16));
            } else {
                assert(c.screen().grid[r] != b.screen().grid[r]);
            }
        }
    }
}

/// A step that keeps the shown screen's grid and only adds marks.
proof fn lemma_same_grid_marked(before: TerminalModel, after: TerminalModel)
    requires
        damage_grows(before.damage, after.damage),
        after.active_screen == before.active_screen,
        after.screen().rows == before.screen().rows,
        after.screen().grid == before.screen().grid,
    ensures
        changed_rows_marked(before, after),
{
}

/// The operations that move the cursor, set attributes or modes, or switch the parser
/// leave the grid alone.
proof fn lemma_cursor_ops_marked(m: TerminalModel, row: u16, col: u16, dr: int, dc: int)
    requires
        grids_shaped(m),
    ensures
        changed_rows_marked(m, m.carriage_return()),
        grids_shaped(m.carriage_return()),
        keeps_size(m, m.carriage_return()),
        changed_rows_marked(m, m.backspace()),
        grids_shaped(m.backspace()),
        keeps_size(m, m.backspace()),
        changed_rows_marked(m, m.tab()),
        grids_shaped(m.tab()),
        keeps_size(m, m.tab()),
        changed_rows_marked(m, m.move_cursor_relative(dr, dc)),
        grids_shaped(m.move_cursor_relative(dr, dc)),
        keeps_size(m, m.move_cursor_relative(dr, dc)),
        changed_rows_marked(m, m.set_cursor_position(row, col)),
        grids_shaped(m.set_cursor_position(row, col)),
        keeps_size(m, m.set_cursor_position(row, col)),
        changed_rows_marked(m, m.set_cursor_row(row)),
        grids_shaped(m.set_cursor_row(row)),
        keeps_size(m, m.set_cursor_row(row)),
        changed_rows_marked(m, m.set_cursor_col(col)),
        grids_shaped(m.set_cursor_col(col)),
        keeps_size(m, m.set_cursor_col(col)),
        changed_rows_marked(m, m.save_cursor()),
        grids_shaped(m.save_cursor()),
        keeps_size(m, m.save_cursor()),
        changed_rows_marked(m, m.restore_cursor()),
        grids_shaped(m.restore_cursor()),
        keeps_size(m, m.restore_cursor()),
        changed_rows_marked(m, m.no_wrap()),
        grids_shaped(m.no_wrap()),
        keeps_size(m, m.no_wrap()),
        changed_rows_marked(m, m.dirty_cursor()),
        grids_shaped(m.dirty_cursor()),
        keeps_size(m, m.dirty_cursor()),
        changed_rows_marked(m, m.set_scroll_region(row, col)),
        grids_shaped(m.set_scroll_region(row, col)),
        keeps_size(m, m.set_scroll_region(row, col)),
{
    let s = m.screen();
    let sr = ScreenModel {
        scroll_top: if row < col && col < s.rows { row } else { 0 },
        scroll_bottom: if row < col && col < s.rows { col } else { (s.rows - 1) as u16 },
        ..s
    };
    assert(m.with_screen(sr).screen() == sr);
}

/// Scrolling a region marks the region, or every row when the whole primary screen
/// scrolls into history.
proof fn lemma_scroll_ops_marked(m: TerminalModel, top: u16, bottom: u16, count: u16)
    requires
        grids_shaped(m),
    ensures
        changed_rows_marked(m, m.scroll_up_in_region(top, bottom, count)),
        grids_shaped(m.scroll_up_in_region(top, bottom, count)),
        keeps_size(m, m.scroll_up_in_region(top, bottom, count)),
        changed_rows_marked(m, m.scroll_down_in_region(top, bottom, count)),
        grids_shaped(m.scroll_down_in_region(top, bottom, count)),
        keeps_size(m, m.scroll_down_in_region(top, bottom, count)),
{
    let after = m.scroll_up_in_region(top, bottom, count);
    let height = bottom - top + 1;
    let n = vstd::math::min(count as int, height);
    if n > 0 {
        assert forall|r: int|
            0 <= r < m.screen().rows && #[trigger] after.screen().grid[r] != m.screen().grid[r]
                implies after.damage.dirty_rows.contains(r as u16) by {
            assert(top <= r <= bottom || (r as u16) < m.primary.rows);
        }
        let down = m.scroll_down_in_region(top, bottom, count);
        assert forall|r: int|
            0 <= r < m.screen().rows && #[trigger] down.screen().grid[r] != m.screen().grid[r]
                implies down.damage.dirty_rows.contains(r as u16) by {
            assert(top <= r <= bottom);
        }
    }
}

/// The line moves: index, line feed, next line, reverse index, and wrapping.
proof fn lemma_line_moves_marked(m: TerminalModel, count: u16)
    requires
        grids_shaped(m),
    ensures
        changed_rows_marked(m, m.scroll_up(count)),
        grids_shaped(m.scroll_up(count)),
        keeps_size(m, m.scroll_up(count)),
        changed_rows_marked(m, m.scroll_down(count)),
        grids_shaped(m.scroll_down(count)),
        keeps_size(m, m.scroll_down(count)),
        changed_rows_marked(m, m.index_down()),
        grids_shaped(m.index_down()),
        keeps_size(m, m.index_down()),
        changed_rows_marked(m, m.wrap_to_next_line()),
        grids_shaped(m.wrap_to_next_line()),
        keeps_size(m, m.wrap_to_next_line()),
        changed_rows_marked(m, m.line_feed()),
        grids_shaped(m.line_feed()),
        keeps_size(m, m.line_feed()),
        changed_rows_marked(m, m.next_line()),
        grids_shaped(m.next_line()),
        keeps_size(m, m.next_line()),
        changed_rows_marked(m, m.reverse_index()),
        grids_shaped(m.reverse_index()),
        keeps_size(m, m.reverse_index()),
{
    let s = m.screen();
    lemma_scroll_ops_marked(m, s.scroll_top, s.scroll_bottom, if count == 0 { 1 } else { count });
    lemma_line_index_marked(m);
    lemma_wrap_marked(m);
    lemma_line_feed_marked(m);
    lemma_reverse_index_marked(m);
}

/// Wrapping to the next line marks what moving down scrolls.
proof fn lemma_wrap_marked(m: TerminalModel)
    requires
        grids_shaped(m),
    ensures
        changed_rows_marked(m, m.wrap_to_next_line()),
        grids_shaped(m.wrap_to_next_line()),
        keeps_size(m, m.wrap_to_next_line()),
{
    let w = m.with_screen(ScreenModel { wrap_pending: false, cursor_col: 0, ..m.screen() });
    lemma_same_grid_marked(m, w);
    lemma_line_index_marked(w);
    lemma_marked_trans(m, w, w.index_down());
}

/// A line feed and a next line mark what they scroll.
proof fn lemma_line_feed_marked(m: TerminalModel)
    requires
        grids_shaped(m),
    ensures
        changed_rows_marked(m, m.line_feed()),
        grids_shaped(m.line_feed()),
        keeps_size(m, m.line_feed()),
        changed_rows_marked(m, m.next_line()),
        grids_shaped(m.next_line()),
        keeps_size(m, m.next_line()),
{
    lemma_wrap_marked(m);
    let w = m.wrap_to_next_line();
    lemma_cursor_ops_marked(w, 0, 0, 0, 0);
    lemma_marked_trans(m, w, w.dirty_cursor());
    let lf = m.line_feed();
    let nl = lf.with_screen(ScreenModel { cursor_col: 0, ..lf.screen() });
    lemma_same_grid_marked(lf, nl);
    lemma_cursor_ops_marked(nl, 0, 0, 0, 0);
    lemma_marked_trans(lf, nl, nl.dirty_cursor());
    lemma_marked_trans(m, lf, nl.dirty_cursor());
}

/// A reverse index marks what it scrolls down.
proof fn lemma_reverse_index_marked(m: TerminalModel)
    requires
        grids_shaped(m),
    ensures
        changed_rows_marked(m, m.reverse_index()),
        grids_shaped(m.reverse_index()),
        keeps_size(m, m.reverse_index()),
{
    let nw = m.no_wrap();
    lemma_cursor_ops_marked(m, 0, 0, 0, 0);
    let ns = nw.screen();
    lemma_scroll_ops_marked(nw, ns.scroll_top, ns.scroll_bottom, 1);
    let up = nw.with_screen(
        ScreenModel { cursor_row: if ns.cursor_row == 0 { 0 } else { (ns.cursor_row - 1) as u16 }, ..ns },
    );
    lemma_same_grid_marked(nw, up);
    let moved_back = if ns.cursor_row == ns.scroll_top { nw.scroll_down(1) } else { up };
    lemma_marked_trans(m, nw, moved_back);
    lemma_cursor_ops_marked(moved_back, 0, 0, 0, 0);
    lemma_marked_trans(m, moved_back, moved_back.dirty_cursor());
}

/// Moving down a row marks what it scrolls.
proof fn lemma_line_index_marked(m: TerminalModel)
    requires
        grids_shaped(m),
    ensures
        changed_rows_marked(m, m.index_down()),
        grids_shaped(m.index_down()),
        keeps_size(m, m.index_down()),
{
    let s = m.screen();
    lemma_scroll_ops_marked(m, s.scroll_top, s.scroll_bottom, 1);
    let moved = m.with_screen(
        ScreenModel { cursor_row: super::model::min_int(s.cursor_row + 1, s.rows - 1) as u16, ..s },
    );
    lemma_same_grid_marked(m, moved);
}

/// Writing a character marks the row it lands in, after any pending wrap.
proof fn lemma_write_char_marked(m: TerminalModel, ch: char)
    requires
        grids_shaped(m),
    ensures
        changed_rows_marked(m, m.write_char(ch)),
        grids_shaped(m.write_char(ch)),
        keeps_size(m, m.write_char(ch)),
{
    let w = if m.screen().wrap_pending {
        m.wrap_to_next_line()
    } else {
        m
    };
    lemma_line_moves_marked(m, 1);
    lemma_marked_refl(m);
    let after = m.write_char(ch);
    let s = w.screen();
    assert forall|r: int|
        0 <= r < w.screen().rows && #[trigger] after.screen().grid[r] != w.screen().grid[r]
            implies after.damage.dirty_rows.contains(r as u16) by {
        assert(r == s.cursor_row);
    }
    assert(changed_rows_marked(w, after));
    lemma_marked_trans(m, w, after);
}

/// Unfinished UTF-8 and multi-byte characters are written like any character.
proof fn lemma_utf8_marked(m: TerminalModel, byte: u8)
    requires
        grids_shaped(m),
    ensures
        changed_rows_marked(m, m.flush_utf8()),
        grids_shaped(m.flush_utf8()),
        keeps_size(m, m.flush_utf8()),
        changed_rows_marked(m, m.push_utf8_byte(byte)),
        grids_shaped(m.push_utf8_byte(byte)),
        keeps_size(m, m.push_utf8_byte(byte)),
{
    let cleared = TerminalModel { utf8_buffer: Seq::empty(), ..m };
    lemma_same_grid_marked(m, cleared);
    lemma_write_char_marked(cleared, super::model::replacement_char());
    lemma_marked_trans(m, cleared, cleared.write_char(super::model::replacement_char()));
    lemma_marked_refl(m);
    let buf = m.utf8_buffer.push(byte);
    let ch = (super::model::utf8_scalar(buf) as u32) as char;
    lemma_write_char_marked(cleared, ch);
    lemma_marked_trans(m, cleared, cleared.write_char(ch));
    let waiting = TerminalModel { utf8_buffer: buf, ..m };
    lemma_same_grid_marked(m, waiting);
}

/// Erasing marks the rows it clears.
proof fn lemma_erase_marked(m: TerminalModel, mode: usize)
    requires
        grids_shaped(m),
    ensures
        changed_rows_marked(m, m.erase_in_line(mode)),
        grids_shaped(m.erase_in_line(mode)),
        keeps_size(m, m.erase_in_line(mode)),
        changed_rows_marked(m, m.erase_in_display(mode)),
        grids_shaped(m.erase_in_display(mode)),
        keeps_size(m, m.erase_in_display(mode)),
{
    lemma_erase_line_marked(m, mode);
    let s = m.screen();
    let row = s.cursor_row as int;
    let after = m.erase_in_display(mode);
    if mode == 0 {
        let e = m.erase_in_line(0);
        lemma_erase_line_marked(m, 0);
        let es = e.screen();
        let cleared = e.with_screen(
            ScreenModel {
                grid: Seq::new(
                    es.rows as nat,
                    |r: int|
                        if r > row {
                            super::types::blank_row(es.cols as nat)
                        } else {
                            es.grid[r]
                        },
                ),
                ..es
            },
        ).with_damage(e.damage.mark_rows((row + 1) as u16, (es.rows - 1) as u16));
        assert forall|r: int|
            0 <= r < e.screen().rows && #[trigger] cleared.screen().grid[r] != e.screen().grid[r]
                implies cleared.damage.dirty_rows.contains(r as u16) by {
            assert(r > row);
        }
        assert(changed_rows_marked(e, cleared));
        lemma_marked_trans(m, e, cleared);
        lemma_cursor_ops_marked(cleared, 0, 0, 0, 0);
        lemma_marked_trans(m, cleared, cleared.no_wrap());
    } else if mode == 1 {
        let top = m.with_screen(
            ScreenModel {
                grid: Seq::new(
                    s.rows as nat,
                    |r: int|
                        if r < row {
                            super::types::blank_row(s.cols as nat)
                        } else {
                            s.grid[r]
                        },
                ),
                ..s
            },
        ).with_damage(
            if row > 0 {
                m.damage.mark_rows(0, (row - 1) as u16)
            } else {
                m.damage
            },
        );
        assert forall|r: int|
            0 <= r < m.screen().rows && #[trigger] top.screen().grid[r] != m.screen().grid[r]
                implies top.damage.dirty_rows.contains(r as u16) by {
            assert(r < row);
        }
        assert(changed_rows_marked(m, top));
        lemma_erase_line_marked(top, 1);
        lemma_marked_trans(m, top, top.erase_in_line(1));
        lemma_cursor_ops_marked(top.erase_in_line(1), 0, 0, 0, 0);
        lemma_marked_trans(m, top.erase_in_line(1), top.erase_in_line(1).no_wrap());
    } else if mode == 2 {
        let all = m.with_screen(
            ScreenModel {
                grid: Seq::new(s.rows as nat, |r: int| super::types::blank_row(s.cols as nat)),
                ..s
            },
        ).with_damage(m.damage.mark_all_rows(s.rows));
        assert forall|r: int|
            0 <= r < m.screen().rows && #[trigger] all.screen().grid[r] != m.screen().grid[r]
                implies all.damage.dirty_rows.contains(r as u16) by {
        }
        assert(changed_rows_marked(m, all));
        lemma_cursor_ops_marked(all, 0, 0, 0, 0);
        lemma_marked_trans(m, all, all.no_wrap());
    } else {
        lemma_cursor_ops_marked(m, 0, 0, 0, 0);
    }
}

/// Erasing in the line marks the cursor's row.
proof fn lemma_erase_line_marked(m: TerminalModel, mode: usize)
    requires
        grids_shaped(m),
    ensures
        changed_rows_marked(m, m.erase_in_line(mode)),
        grids_shaped(m.erase_in_line(mode)),
        keeps_size(m, m.erase_in_line(mode)),
{
    let s = m.screen();
    let row = s.cursor_row;
    let after = m.erase_in_line(mode);
    if mode <= 2 {
        assert forall|r: int|
            0 <= r < m.screen().rows && #[trigger] after.screen().grid[r] != m.screen().grid[r]
                implies after.damage.dirty_rows.contains(r as u16) by {
            assert(r == row);
        }
    } else {
        lemma_cursor_ops_marked(m, 0, 0, 0, 0);
    }
}

/// Inserting or deleting characters marks the cursor's row; inserting or deleting lines
/// marks the region below the cursor.
proof fn lemma_insert_delete_marked(m: TerminalModel, count: u16)
    requires
        grids_shaped(m),
    ensures
        changed_rows_marked(m, m.insert_chars(count)),
        grids_shaped(m.insert_chars(count)),
        keeps_size(m, m.insert_chars(count)),
        changed_rows_marked(m, m.delete_chars(count)),
        grids_shaped(m.delete_chars(count)),
        keeps_size(m, m.delete_chars(count)),
        changed_rows_marked(m, m.insert_lines(count)),
        grids_shaped(m.insert_lines(count)),
        keeps_size(m, m.insert_lines(count)),
        changed_rows_marked(m, m.delete_lines(count)),
        grids_shaped(m.delete_lines(count)),
        keeps_size(m, m.delete_lines(count)),
{
    let s = m.screen();
    let row = s.cursor_row;
    let ins = m.insert_chars(count);
    assert forall|r: int|
        0 <= r < m.screen().rows && #[trigger] ins.screen().grid[r] != m.screen().grid[r]
            implies ins.damage.dirty_rows.contains(r as u16) by {
        assert(r == row);
    }
    let del = m.delete_chars(count);
    assert forall|r: int|
        0 <= r < m.screen().rows && #[trigger] del.screen().grid[r] != m.screen().grid[r]
            implies del.damage.dirty_rows.contains(r as u16) by {
        assert(r == row);
    }
    let n = if count == 0 { 1 } else { count };
    lemma_scroll_ops_marked(m, s.cursor_row, s.scroll_bottom, n);
    lemma_cursor_ops_marked(m.scroll_down_in_region(s.cursor_row, s.scroll_bottom, n), 0, 0, 0, 0);
    lemma_marked_trans(
        m,
        m.scroll_down_in_region(s.cursor_row, s.scroll_bottom, n),
        m.scroll_down_in_region(s.cursor_row, s.scroll_bottom, n).no_wrap(),
    );
    lemma_cursor_ops_marked(m.scroll_up_in_region(s.cursor_row, s.scroll_bottom, n), 0, 0, 0, 0);
    lemma_marked_trans(
        m,
        m.scroll_up_in_region(s.cursor_row, s.scroll_bottom, n),
        m.scroll_up_in_region(s.cursor_row, s.scroll_bottom, n).no_wrap(),
    );
    lemma_marked_refl(m);
}

/// Switching screens and a full reset ask for a full rebuild; the other private modes
/// leave the grid alone.
proof fn lemma_modes_marked(m: TerminalModel, param: usize, enabled: bool)
    requires
        grids_shaped(m),
    ensures
        changed_rows_marked(m, m.enter_alternate_screen()),
        grids_shaped(m.enter_alternate_screen()),
        keeps_size(m, m.enter_alternate_screen()),
        changed_rows_marked(m, m.exit_alternate_screen()),
        grids_shaped(m.exit_alternate_screen()),
        keeps_size(m, m.exit_alternate_screen()),
        changed_rows_marked(m, m.reset()),
        grids_shaped(m.reset()),
        keeps_size(m, m.reset()),
        changed_rows_marked(m, m.private_mode(param, enabled)),
        grids_shaped(m.private_mode(param, enabled)),
        keeps_size(m, m.private_mode(param, enabled)),
{
    lemma_cursor_ops_marked(m, 0, 0, 0, 0);
    lemma_marked_refl(m);
}

/// Every private mode of a sequence marks what it changes.
proof fn lemma_private_modes_marked(m: TerminalModel, params: Seq<Option<usize>>, enabled: bool)
    requires
        grids_shaped(m),
    ensures
        changed_rows_marked(m, m.set_private_modes(params, enabled)),
        grids_shaped(m.set_private_modes(params, enabled)),
        keeps_size(m, m.set_private_modes(params, enabled)),
    decreases params.len(),
{
    if params.len() == 0 {
        lemma_marked_refl(m);
    } else {
        let next = match params[0] {
            Some(p) => m.private_mode(p, enabled),
            None => m,
        };
        match params[0] {
            Some(p) => lemma_modes_marked(m, p, enabled),
            None => lemma_marked_refl(m),
        }
        lemma_private_modes_marked(next, params.drop_first(), enabled);
        lemma_marked_trans(m, next, next.set_private_modes(params.drop_first(), enabled));
    }
}

/// Every control sequence marks what it changes.
#[verifier::rlimit(60)]
proof fn lemma_execute_csi_marked(m: TerminalModel, final_byte: u8, raw: Seq<u8>)
    requires
        grids_shaped(m),
    ensures
        changed_rows_marked(m, m.execute_csi(final_byte, raw)),
        grids_shaped(m.execute_csi(final_byte, raw)),
        keeps_size(m, m.execute_csi(final_byte, raw)),
{
    reveal(TerminalModel::execute_csi);
    let parsed = parse_csi_spec(raw);
    let ps = parsed.1;
    let p0 = param_or_spec(ps, 0, 1);
    let row = dec_or_zero(p0) as u16;
    lemma_cursor_ops_marked(m, row, dec_or_zero(param_or_spec(ps, 1, 1)) as u16, -(move_count(p0)), 0);
    lemma_cursor_ops_marked(m, row, row, move_count(p0), 0);
    lemma_cursor_ops_marked(m, row, row, 0, move_count(p0));
    lemma_cursor_ops_marked(m, row, dec_or_zero(param_or_spec(ps, 1, m.rows() as usize)) as u16, 0, -(move_count(p0)));
    lemma_erase_marked(m, param_or_spec(ps, 0, 0));
    lemma_insert_delete_marked(m, p0 as u16);
    lemma_private_modes_marked(m, ps, true);
    lemma_private_modes_marked(m, ps, false);
    let sgr = m.set_graphics_rendition(ps);
    lemma_same_grid_marked(m, sgr);
    let private = parsed.0;
    let inner = if !private && final_byte == 65 {
        m.move_cursor_relative(-(move_count(p0)), 0)
    } else if !private && final_byte == 66 {
        m.move_cursor_relative(move_count(p0), 0)
    } else if !private && final_byte == 67 {
        m.move_cursor_relative(0, move_count(p0))
    } else if !private && final_byte == 68 {
        m.move_cursor_relative(0, -(move_count(p0)))
    } else if !private && final_byte == 71 {
        m.set_cursor_col(dec_or_zero(p0) as u16)
    } else if !private && final_byte == 100 {
        m.set_cursor_row(dec_or_zero(p0) as u16)
    } else if !private && (final_byte == 72 || final_byte == 102) {
        m.set_cursor_position(dec_or_zero(p0) as u16, dec_or_zero(param_or_spec(ps, 1, 1)) as u16)
    } else if !private && final_byte == 74 {
        m.erase_in_display(param_or_spec(ps, 0, 0))
    } else if !private && final_byte == 75 {
        m.erase_in_line(param_or_spec(ps, 0, 0))
    } else if !private && final_byte == 64 {
        m.insert_chars(p0 as u16)
    } else if !private && final_byte == 80 {
        m.delete_chars(p0 as u16)
    } else if !private && final_byte == 76 {
        m.insert_lines(p0 as u16)
    } else if !private && final_byte == 77 {
        m.delete_lines(p0 as u16)
    } else if !private && final_byte == 109 {
        m.set_graphics_rendition(ps)
    } else if !private && final_byte == 114 {
        m.set_scroll_region(
            dec_or_zero(p0) as u16,
            dec_or_zero(param_or_spec(ps, 1, m.rows() as usize)) as u16,
        )
    } else if !private && final_byte == 115 {
        m.save_cursor()
    } else if !private && final_byte == 117 {
        m.restore_cursor()
    } else if private && final_byte == 104 {
        m.set_private_modes(ps, true)
    } else if private && final_byte == 108 {
        m.set_private_modes(ps, false)
    } else {
        m
    };
    assert(m.execute_csi(final_byte, raw) == inner.no_wrap());
    assert(changed_rows_marked(m, inner) && grids_shaped(inner));
    lemma_cursor_ops_marked(inner, 0, 0, 0, 0);
    lemma_marked_trans(m, inner, inner.no_wrap());
}
/// A byte in the ground state marks what it writes or scrolls.
proof fn lemma_ground_byte_marked(m: TerminalModel, byte: u8)
    requires
        grids_shaped(m),
    ensures
        changed_rows_marked(m, m.ground_byte(byte)),
        grids_shaped(m.ground_byte(byte)),
        keeps_size(m, m.ground_byte(byte)),
{
    lemma_utf8_marked(m, byte);
    let f = m.flush_utf8();
    lemma_same_grid_marked(f, f.with_parser(ParserModel::Escape));
    lemma_marked_trans(m, f, f.with_parser(ParserModel::Escape));
    lemma_cursor_ops_marked(f, 0, 0, 0, 0);
    lemma_marked_trans(m, f, f.carriage_return());
    lemma_marked_trans(m, f, f.backspace());
    lemma_marked_trans(m, f, f.tab());
    lemma_line_feed_marked(f);
    lemma_marked_trans(m, f, f.line_feed());
    lemma_write_char_marked(f, byte as char);
    lemma_marked_trans(m, f, f.write_char(byte as char));
}

/// A byte after ESC marks what its command changes.
#[verifier::rlimit(40)]
proof fn lemma_escape_byte_marked(m: TerminalModel, byte: u8)
    requires
        grids_shaped(m),
    ensures
        changed_rows_marked(m, m.escape_byte(byte)),
        grids_shaped(m.escape_byte(byte)),
        keeps_size(m, m.escape_byte(byte)),
{
    let cmd = if byte == 68 {
        m.index_down()
    } else if byte == 77 {
        m.reverse_index()
    } else if byte == 69 {
        m.next_line()
    } else if byte == 55 {
        m.save_cursor()
    } else if byte == 56 {
        m.restore_cursor()
    } else if byte == 99 {
        m.reset()
    } else {
        m
    };
    if byte == 68 {
        lemma_line_index_marked(m);
    } else if byte == 77 {
        lemma_reverse_index_marked(m);
    } else if byte == 69 {
        lemma_line_feed_marked(m);
    } else if byte == 55 || byte == 56 {
        lemma_cursor_ops_marked(m, 0, 0, 0, 0);
    } else if byte == 99 {
        lemma_modes_marked(m, 0, true);
    } else {
        lemma_marked_refl(m);
    }
    let parser = if byte == 91 {
        ParserModel::Csi(Seq::empty())
    } else if byte == 93 {
        ParserModel::Osc
    } else {
        ParserModel::Ground
    };
    assert(m.escape_byte(byte) == cmd.with_parser(parser));
    lemma_same_grid_marked(cmd, cmd.with_parser(parser));
    lemma_marked_trans(m, cmd, cmd.with_parser(parser));
}

/// One output byte marks every row of the shown screen that it changes.
proof fn lemma_push_byte_marked(m: TerminalModel, byte: u8)
    requires
        grids_shaped(m),
    ensures
        changed_rows_marked(m, m.push_byte(byte)),
        grids_shaped(m.push_byte(byte)),
        keeps_size(m, m.push_byte(byte)),
{
    reveal(TerminalModel::push_byte);
    match m.parser {
        ParserModel::Ground => lemma_ground_byte_marked(m, byte),
        ParserModel::Escape => lemma_escape_byte_marked(m, byte),
        ParserModel::Csi(bytes) => {
            let g = m.with_parser(ParserModel::Ground);
            lemma_same_grid_marked(m, g);
            lemma_execute_csi_marked(g, byte, bytes);
            lemma_marked_trans(m, g, g.execute_csi(byte, bytes));
            let collected = ParserModel::Csi(
                if bytes.len() < super::model::CSI_PARAMS_LIMIT {
                    bytes.push(byte)
                } else {
                    bytes
                },
            );
            lemma_same_grid_marked(m, g.with_parser(collected));
        },
        ParserModel::Osc => {
            lemma_same_grid_marked(m, m.osc_byte(byte));
        },
        ParserModel::OscEsc => {
            lemma_same_grid_marked(m, m.osc_esc_byte(byte));
        },
    }
}

/// Output marks what it changes: every row of the shown screen whose cells the bytes
/// change is marked dirty, unless a full rebuild is asked for (as when the shown screen
/// switches), and no mark made before is lost.
pub proof fn lemma_output_marks_changed_rows(m: TerminalModel, bytes: Seq<u8>)
    requires
        m.wf(),
    ensures
        changed_rows_marked(m, m.push_bytes(bytes)),
{
    lemma_push_bytes_marked(m, bytes);
}

/// Output never changes the size of the terminal: both screens keep their columns and
/// rows, whatever the bytes.
pub proof fn lemma_output_keeps_size(m: TerminalModel, bytes: Seq<u8>)
    requires
        m.wf(),
    ensures
        keeps_size(m, m.push_bytes(bytes)),
{
    lemma_push_bytes_marked(m, bytes);
}

proof fn lemma_push_bytes_marked(m: TerminalModel, bytes: Seq<u8>)
    requires
        grids_shaped(m),
    ensures
        changed_rows_marked(m, m.push_bytes(bytes)),
        grids_shaped(m.push_bytes(bytes)),
        keeps_size(m, m.push_bytes(bytes)),
    decreases bytes.len(),
{
    if bytes.len() == 0 {
        lemma_marked_refl(m);
    } else {
        let before = m.push_bytes(bytes.drop_last());
        lemma_push_bytes_marked(m, bytes.drop_last());
        lemma_push_byte_marked(before, bytes.last());
        lemma_marked_trans(m, before, before.push_byte(bytes.last()));
    }
}

} // verus!
