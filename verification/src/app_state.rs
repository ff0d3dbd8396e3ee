//! The application-level state that is pure logic: cursor blinking, the selection, and
//! scrolling the view through history.
use std::time::{Duration, Instant};
use vstd::prelude::*;

use crate::cells::SelectionRange;
use crate::input::{reduce_selection_phase, selection_step, SelectionPhase};

verus! {

/// How long the cursor stays in one blink phase, in milliseconds.
pub const BLINK_INTERVAL_MILLIS: u128 = 600;

#[verifier::external_type_specification]
#[verifier::external_body]
/// Declares std's `Instant` so that a blink state can hold one; it is opaque here.
pub struct ExInstant(Instant);

/// Calls std's `Instant::now`; the result is the clock's reading, so nothing is stated of it.
#[verifier::external_body]
fn instant_now() -> Instant {
    Instant::now()
}

/// Calls std's `Instant::elapsed`: the time from `since` to now. It depends on the clock,
/// so nothing is stated of it.
#[verifier::external_body]
fn elapsed_since(since: &Instant) -> Duration {
    since.elapsed()
}

/// Calls std's `Duration::as_millis`: the whole milliseconds of `d`. A `Duration` is opaque
/// here, so nothing is stated of the result.
#[verifier::external_body]
fn whole_millis(d: Duration) -> u128 {
    d.as_millis()
}

/// The cursor blink: visible or not, when the phase last changed, and the activity count
/// last seen.
pub struct BlinkState {
    pub visible: bool,
    pub last_toggle: Instant,
    pub last_activity: u64,
}

impl BlinkState {
    /// Starts visible, with no activity seen, the phase starting at `now`.
    pub fn new_at(now: Instant) -> (b: Self)
        ensures
            b == (BlinkState { visible: true, last_toggle: now, last_activity: 0 }),
    {
        BlinkState { visible: true, last_toggle: now, last_activity: 0 }
    }

    /// Starts visible, with no activity seen, the phase starting at the current instant.
    pub fn new() -> (b: Self)
        ensures
            b.visible,
            b.last_activity == 0,
    {
        BlinkState::new_at(instant_now())
    }

    /// Notes the activity count at instant `now`: new activity shows the cursor and
    /// restarts the phase at `now`. Returns whether the cursor became visible because of it.
    pub fn sync_activity_at(&mut self, activity: u64, now: Instant) -> (changed: bool)
        ensures
            activity != old(self).last_activity ==> {
                &&& *final(self) == (BlinkState {
                    visible: true,
                    last_toggle: now,
                    last_activity: activity,
                })
                &&& changed == !old(self).visible
            },
            activity == old(self).last_activity ==> *final(self) == *old(self) && !changed,
    {
        if activity != self.last_activity {
            self.last_activity = activity;
            let changed = !self.visible;
            self.visible = true;
            self.last_toggle = now;
            return changed;
        }
        false
    }

    /// Notes the activity count; new activity shows the cursor and restarts the phase at
    /// the current instant (see `sync_activity_at`). Returns whether the cursor became
    /// visible because of it.
    pub fn sync_activity(&mut self, activity: u64) -> (changed: bool)
        ensures
            activity != old(self).last_activity ==> {
                &&& final(self).visible
                &&& final(self).last_activity == activity
                &&& changed == !old(self).visible
            },
            activity == old(self).last_activity ==> *final(self) == *old(self) && !changed,
    {
        if activity != self.last_activity {
            self.sync_activity_at(activity, instant_now())
        } else {
            false
        }
    }

    /// Toggles the phase when `elapsed_millis` since the last change reach the interval,
    /// restarting it at `now`; otherwise changes nothing.
    pub fn tick_at(&mut self, elapsed_millis: u128, now: Instant) -> (toggled: bool)
        ensures
            toggled == (elapsed_millis >= BLINK_INTERVAL_MILLIS),
            toggled ==> *final(self) == (BlinkState {
                visible: !old(self).visible,
                last_toggle: now,
                last_activity: old(self).last_activity,
            }),
            !toggled ==> *final(self) == *old(self),
    {
        if elapsed_millis >= BLINK_INTERVAL_MILLIS {
            self.visible = !self.visible;
            self.last_toggle = now;
            return true;
        }
        false
    }

    /// Toggles the phase when `elapsed_millis` since the last change reach the interval,
    /// restarting it at the current instant (see `tick_at`); otherwise changes nothing.
    pub fn tick_after(&mut self, elapsed_millis: u128) -> (toggled: bool)
        ensures
            toggled == (elapsed_millis >= BLINK_INTERVAL_MILLIS),
            toggled ==> final(self).visible == !old(self).visible,
            final(self).last_activity == old(self).last_activity,
            !toggled ==> *final(self) == *old(self),
    {
        if elapsed_millis >= BLINK_INTERVAL_MILLIS {
            self.tick_at(elapsed_millis, instant_now())
        } else {
            false
        }
    }

    /// Toggles the phase when the interval has passed since the last change, restarting it
    /// at the current instant. Whether it has passed is read from the clock, so the
    /// contract says what holds either way; `tick_at` states the rule for a given elapsed
    /// time and instant.
    pub fn tick(&mut self) -> (toggled: bool)
        ensures
            toggled ==> final(self).visible == !old(self).visible,
            final(self).last_activity == old(self).last_activity,
            !toggled ==> *final(self) == *old(self),
    {
        let elapsed = whole_millis(elapsed_since(&self.last_toggle));
        self.tick_after(elapsed)
    }

    /// Whether the cursor is in its visible phase.
    pub fn visible(&self) -> (v: bool)
        ensures
            v == self.visible,
    {
        self.visible
    }
}

/// The selection: where the drag started, where it is now, and whether it goes on.
#[derive(Clone, Copy, Debug, Default, PartialEq, Eq)]
pub struct SelectionState {
    pub anchor: Option<(u16, u16)>,
    pub focus: Option<(u16, u16)>,
    pub dragging: bool,
}

impl SelectionState {
    /// No selection.
    pub fn empty() -> (s: Self)
        ensures
            s.anchor is None,
            s.focus is None,
            !s.dragging,
    {
        SelectionState { anchor: None, focus: None, dragging: false }
    }

    /// The selected range, when both ends are known.
    pub fn range(&self) -> (r: Option<SelectionRange>)
        ensures
            r == (match (self.anchor, self.focus) {
                (Some((start_row, start_col)), Some((end_row, end_col))) => Some(
                    SelectionRange { start_row, start_col, end_row, end_col },
                ),
                _ => None,
            }),
    {
        match (self.anchor, self.focus) {
            (Some((start_row, start_col)), Some((end_row, end_col))) => Some(
                SelectionRange { start_row, start_col, end_row, end_col },
            ),
            _ => None,
        }
    }

    /// Folds a pointer event over `cell` into the selection.
    pub fn update(&mut self, phase: SelectionPhase, cell: Option<(u16, u16)>)
        ensures
            (final(self).anchor, final(self).focus, final(self).dragging) == selection_step(
                old(self).anchor,
                old(self).focus,
                old(self).dragging,
                phase,
                cell,
            ),
    {
        let (anchor, focus, dragging) = reduce_selection_phase(
            self.anchor,
            self.focus,
            self.dragging,
            phase,
            cell,
        );
        self.anchor = anchor;
        self.focus = focus;
        self.dragging = dragging;
    }

    /// Stops dragging, keeping both ends.
    pub fn stop_drag(&mut self)
        ensures
            final(self).anchor == old(self).anchor,
            final(self).focus == old(self).focus,
            !final(self).dragging,
    {
        self.dragging = false;
    }
}

/// The view offset after scrolling `lines` rows (positive: back into history), kept
/// between 0 and the history length.
pub fn scrolled_viewport_offset(current: usize, lines: i32, max_offset: usize) -> (next: usize)
    ensures
        next as int == if current + lines < 0 {
            0
        } else if current + lines > max_offset {
            max_offset as int
        } else {
            current + lines
        },
{
    if lines < 0 {
        let back = (-(lines as i64)) as usize;
        if back >= current {
            0
        } else {
            let next = current - back;
            if next > max_offset {
                max_offset
            } else {
                next
            }
        }
    } else {
        let forward = lines as usize;
        if current >= max_offset || forward >= max_offset - current {
            max_offset
        } else {
            current + forward
        }
    }
}

/// The activity count after `amount` more bytes went by (counted as at least one), held
/// at `u64::MAX` instead of overflowing.
pub fn bumped_activity(counter: u64, amount: u64) -> (next: u64)
    ensures
        next as int == vstd::math::min(
            counter + vstd::math::max(amount as int, 1),
            u64::MAX as int,
        ),
{
    let step = if amount == 0 {
        1
    } else {
        amount
    };
    counter.saturating_add(step)
}

} // verus!
