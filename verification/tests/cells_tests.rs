use std::collections::BTreeSet;

use sample_terminal::cells::{
    cursor_cell, plan_row_rebuild, same_selection, ActiveScreen, Cell, Color, CursorState, RenderDamage, RenderSnapshot,
    SelectionRange,
};

#[test]
fn selection_normalization_contains_rows() {
    let selection = SelectionRange {
        start_row: 2,
        start_col: 4,
        end_row: 1,
        end_col: 1,
    }
    .normalized();
    assert!(selection.contains(1, 1));
    assert!(selection.contains(2, 4));
    assert!(selection.contains(2, 0));
    assert!(!selection.contains(0, 0));
}

#[test]
fn damage_default_is_empty() {
    assert_eq!(
        RenderDamage::default(),
        RenderDamage {
            full_rebuild: false,
            dirty_rows: BTreeSet::new(),
            selection_dirty: false,
            cursor_dirty: false,
            global_dirty: false,
        }
    );
}

#[test]
fn single_row_selection_is_bounded_by_columns() {
    let selection = SelectionRange {
        start_row: 3,
        start_col: 5,
        end_row: 3,
        end_col: 2,
    };
    assert!(selection.contains(3, 2));
    assert!(selection.contains(3, 5));
    assert!(!selection.contains(3, 6));
    assert!(!selection.contains(3, 1));
    assert!(!selection.contains(2, 3));
    assert_eq!(
        selection.normalized(),
        SelectionRange {
            start_row: 3,
            start_col: 2,
            end_row: 3,
            end_col: 5,
        }
    );
}

#[test]
fn snapshot_starts_blank_and_asks_for_full_rebuild() {
    let snapshot = RenderSnapshot::new(3, 2);
    assert_eq!(snapshot.cols, 3);
    assert_eq!(snapshot.rows, 2);
    assert_eq!(snapshot.cells.len(), 6);
    assert!(snapshot.cells.iter().all(|cell| *cell == Cell::default()));
    assert_eq!(snapshot.cursor, None);
    assert_eq!(snapshot.active_screen, ActiveScreen::Primary);
    assert!(snapshot.damage.full_rebuild);

    let empty = RenderSnapshot::new(0, 0);
    assert_eq!((empty.cols, empty.rows), (1, 1));
}

#[test]
fn snapshot_cells_are_addressed_row_major() {
    let mut snapshot = RenderSnapshot::new(3, 2);
    snapshot.set_char(1, 2, 'z');
    let red = Cell {
        ch: 'r',
        fg: Color::Ansi {
            index: 1,
            bright: false,
        },
        bg: Color::DefaultBg,
        flags: 0,
    };
    snapshot.set_cell(0, 1, red);
    assert_eq!(snapshot.cells[5].ch, 'z');
    assert_eq!(snapshot.char_at(1, 2), 'z');
    assert_eq!(snapshot.cell(0, 1), Some(&red));
    assert_eq!(snapshot.cell(2, 0), None);
    assert_eq!(snapshot.char_at(0, 3), ' ');

    snapshot.set_char(5, 5, 'q');
    assert!(snapshot.cells.iter().all(|cell| cell.ch != 'q'));

    snapshot.set_active_screen(ActiveScreen::Alternate);
    assert_eq!(snapshot.active_screen, ActiveScreen::Alternate);
}

#[test]
fn cursor_cell_respects_visibility_and_clamps() {
    let mut snapshot = RenderSnapshot::new(2, 2);
    assert_eq!(cursor_cell(&snapshot, true), None);
    snapshot.set_cursor(Some(CursorState {
        row: 1,
        col: 1,
        visible: true,
    }));
    assert_eq!(cursor_cell(&snapshot, true), Some((1, 1)));
    assert_eq!(cursor_cell(&snapshot, false), None);

    snapshot.set_cursor(Some(CursorState {
        row: 9,
        col: 4,
        visible: true,
    }));
    assert_eq!(cursor_cell(&snapshot, true), Some((1, 1)));

    snapshot.set_cursor(Some(CursorState {
        row: 0,
        col: 0,
        visible: false,
    }));
    assert_eq!(cursor_cell(&snapshot, true), None);
}

#[test]
fn rebuild_plan_follows_damage() {
    let mut snapshot = RenderSnapshot::new(4, 3);
    let fresh = plan_row_rebuild(0, 0, 0, &snapshot, false);
    assert!(fresh.rebuild_all);
    assert!(fresh.chrome);
    assert_eq!(fresh.rows, vec![0, 1, 2]);

    snapshot.damage = RenderDamage::default();
    snapshot.damage.dirty_rows.insert(2);
    snapshot.damage.dirty_rows.insert(0);
    snapshot.damage.dirty_rows.insert(7);
    let dirty = plan_row_rebuild(4, 3, 3, &snapshot, false);
    assert!(!dirty.rebuild_all);
    assert!(!dirty.chrome);
    assert_eq!(dirty.rows, vec![0, 2]);

    let selection_moved = plan_row_rebuild(4, 3, 3, &snapshot, true);
    assert!(!selection_moved.rebuild_all);
    assert_eq!(selection_moved.rows, vec![0, 1, 2]);

    snapshot.damage.global_dirty = true;
    let global = plan_row_rebuild(4, 3, 3, &snapshot, false);
    assert!(global.chrome);
    assert!(!global.rebuild_all);

    let wrong_cache = plan_row_rebuild(4, 3, 2, &snapshot, false);
    assert!(wrong_cache.rebuild_all);

    let a = Some(SelectionRange {
        start_row: 0,
        start_col: 1,
        end_row: 2,
        end_col: 3,
    });
    assert!(same_selection(a, a));
    assert!(same_selection(None, None));
    assert!(!same_selection(a, None));
    assert!(!same_selection(
        a,
        Some(SelectionRange {
            start_row: 0,
            start_col: 1,
            end_row: 2,
            end_col: 4,
        })
    ));
}

#[test]
fn selection_contains_the_same_cells_in_either_direction() {
    let forward = SelectionRange {
        start_row: 1,
        start_col: 3,
        end_row: 3,
        end_col: 1,
    };
    let backward = SelectionRange {
        start_row: 3,
        start_col: 1,
        end_row: 1,
        end_col: 3,
    };
    for row in 0..5 {
        for col in 0..5 {
            assert_eq!(forward.contains(row, col), backward.contains(row, col));
        }
    }
    assert!(forward.contains(1, 3));
    assert!(forward.contains(3, 1));
    assert!(forward.contains(2, 0));
    assert!(!forward.contains(1, 2));
    assert!(!forward.contains(3, 2));
}
