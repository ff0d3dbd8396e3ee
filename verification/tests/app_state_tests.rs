use std::time::{Duration, Instant};

use sample_terminal::app_state::{bumped_activity, scrolled_viewport_offset, BlinkState, SelectionState};
use sample_terminal::cells::SelectionRange;
use sample_terminal::input::SelectionPhase;

#[test]
fn blink_resets_to_visible_on_activity() {
    let mut blink = BlinkState::new();
    blink.visible = false;

    assert!(blink.sync_activity(1));
    assert!(blink.visible());
    assert!(!blink.sync_activity(1));
}

#[test]
fn blink_tick_toggles_after_interval() {
    let mut blink = BlinkState::new();
    blink.last_toggle = Instant::now() - Duration::from_millis(601);

    assert!(blink.tick());
    assert!(!blink.visible());
    assert!(!blink.tick());
}

#[test]
fn blink_tick_after_uses_the_interval_boundary() {
    let mut blink = BlinkState::new();
    assert!(!blink.tick_after(599));
    assert!(blink.visible());
    assert!(blink.tick_after(600));
    assert!(!blink.visible());
    assert!(blink.tick_after(10_000));
    assert!(blink.visible());
}

#[test]
fn activity_on_a_visible_cursor_reports_no_change() {
    let mut blink = BlinkState::new();
    assert!(!blink.sync_activity(7));
    assert!(blink.visible());
    assert_eq!(blink.last_activity, 7);
}

#[test]
fn selection_state_follows_a_drag() {
    let mut selection = SelectionState::empty();
    assert_eq!(selection.range(), None);

    selection.update(SelectionPhase::Start, Some((2, 3)));
    assert_eq!(
        selection.range(),
        Some(SelectionRange {
            start_row: 2,
            start_col: 3,
            end_row: 2,
            end_col: 3,
        })
    );
    assert!(selection.dragging);

    selection.update(SelectionPhase::Update, Some((0, 1)));
    assert_eq!(
        selection.range(),
        Some(SelectionRange {
            start_row: 2,
            start_col: 3,
            end_row: 0,
            end_col: 1,
        })
    );

    selection.update(SelectionPhase::Update, None);
    assert_eq!(selection.focus, Some((0, 1)));

    selection.stop_drag();
    assert!(!selection.dragging);
    selection.update(SelectionPhase::Update, Some((4, 4)));
    assert_eq!(selection.focus, Some((0, 1)));
}

#[test]
fn selection_start_outside_grid_clears() {
    let mut selection = SelectionState::empty();
    selection.update(SelectionPhase::Start, Some((1, 1)));
    selection.update(SelectionPhase::Start, None);
    assert_eq!(selection.range(), None);
    assert!(!selection.dragging);
}

#[test]
fn scrolling_the_viewport_clamps_to_history() {
    assert_eq!(scrolled_viewport_offset(0, 3, 10), 3);
    assert_eq!(scrolled_viewport_offset(8, 5, 10), 10);
    assert_eq!(scrolled_viewport_offset(4, -2, 10), 2);
    assert_eq!(scrolled_viewport_offset(1, -5, 10), 0);
    assert_eq!(scrolled_viewport_offset(0, i32::MIN, 10), 0);
    assert_eq!(scrolled_viewport_offset(0, i32::MAX, 10), 10);
    assert_eq!(scrolled_viewport_offset(5, 0, 3), 3);
}

#[test]
fn activity_counts_at_least_one_and_saturates() {
    assert_eq!(bumped_activity(5, 0), 6);
    assert_eq!(bumped_activity(5, 10), 15);
    assert_eq!(bumped_activity(u64::MAX - 1, 10), u64::MAX);
    assert_eq!(bumped_activity(u64::MAX, 0), u64::MAX);
}

#[test]
fn blink_phase_restarts_at_the_given_instant() {
    let start = Instant::now();
    let later = start + Duration::from_millis(700);
    let mut blink = BlinkState::new_at(start);
    assert!(blink.visible);
    assert_eq!(blink.last_toggle, start);

    assert!(!blink.tick_at(599, later));
    assert_eq!(blink.last_toggle, start);
    assert!(blink.visible);

    assert!(blink.tick_at(700, later));
    assert!(!blink.visible);
    assert_eq!(blink.last_toggle, later);

    let after_input = later + Duration::from_millis(5);
    assert!(blink.sync_activity_at(3, after_input));
    assert!(blink.visible);
    assert_eq!(blink.last_toggle, after_input);
    assert_eq!(blink.last_activity, 3);

    assert!(!blink.sync_activity_at(3, after_input + Duration::from_millis(1)));
    assert_eq!(blink.last_toggle, after_input);
}
