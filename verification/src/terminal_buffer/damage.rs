//! Bookkeeping of what changed on screen since the last render snapshot.
use std::collections::BTreeSet;
use vstd::prelude::*;

use crate::cells::{DamageModel, RenderDamage};

verus! {

broadcast use {vstd::std_specs::btree::group_btree_axioms, vstd::laws_cmp::group_laws_cmp};

impl DamageModel {
    /// Asks for a full rebuild.
    pub open spec fn mark_full_rebuild(self) -> DamageModel {
        DamageModel { full_rebuild: true, global_dirty: true, ..self }
    }

    /// Marks one row dirty.
    pub open spec fn mark_row(self, row: u16) -> DamageModel {
        DamageModel { dirty_rows: self.dirty_rows.insert(row), ..self }
    }

    /// Marks rows `first..=last` dirty.
    pub open spec fn mark_rows(self, first: u16, last: u16) -> DamageModel {
        DamageModel {
            dirty_rows: self.dirty_rows.union(Set::new(|r: u16| first <= r <= last)),
            ..self
        }
    }

    /// Marks rows `0..rows` dirty.
    pub open spec fn mark_all_rows(self, rows: u16) -> DamageModel {
        DamageModel { dirty_rows: self.dirty_rows.union(Set::new(|r: u16| r < rows)), ..self }
    }

    /// Marks the cursor dirty.
    pub open spec fn mark_cursor_dirty(self) -> DamageModel {
        DamageModel { cursor_dirty: true, ..self }
    }
}

/// Accumulates damage between two render snapshots.
#[derive(Clone, Debug, PartialEq, Eq)]
pub struct DamageTracker {
    full_rebuild: bool,
    dirty_rows: BTreeSet<u16>,
    selection_dirty: bool,
    cursor_dirty: bool,
    global_dirty: bool,
}

impl View for DamageTracker {
    type V = DamageModel;

    closed spec fn view(&self) -> DamageModel {
        DamageModel {
            full_rebuild: self.full_rebuild,
            dirty_rows: self.dirty_rows@,
            selection_dirty: self.selection_dirty,
            cursor_dirty: self.cursor_dirty,
            global_dirty: self.global_dirty,
        }
    }
}

impl DamageTracker {
    /// No damage.
    pub fn new() -> (d: Self)
        ensures
            d@ == DamageModel::empty(),
    {
        DamageTracker {
            full_rebuild: false,
            dirty_rows: BTreeSet::new(),
            selection_dirty: false,
            cursor_dirty: false,
            global_dirty: false,
        }
    }

    /// Asks for a full rebuild.
    pub fn mark_full_rebuild(&mut self)
        ensures
            final(self)@ == old(self)@.mark_full_rebuild(),
    {
        self.full_rebuild = true;
        self.global_dirty = true;
    }

    /// Marks one row dirty.
    pub fn mark_row(&mut self, row: u16)
        ensures
            final(self)@ == old(self)@.mark_row(row),
    {
        self.dirty_rows.insert(row);
    }

    /// Marks rows `first..=last` dirty.
    pub fn mark_rows(&mut self, first: u16, last: u16)
        ensures
            final(self)@ == old(self)@.mark_rows(first, last),
    {
        let mut row: u32 = first as u32;
        while row <= last as u32
            invariant
                first <= row <= last as u32 + 1 || row == first,
                self@.dirty_rows =~= old(self)@.dirty_rows.union(
                    Set::new(|r: u16| first <= r && (r as u32) < row),
                ),
                self@.full_rebuild == old(self)@.full_rebuild,
                self@.selection_dirty == old(self)@.selection_dirty,
                self@.cursor_dirty == old(self)@.cursor_dirty,
                self@.global_dirty == old(self)@.global_dirty,
            decreases last as u32 + 1 - row,
        {
            self.mark_row(row as u16);
            row = row + 1;
        }
        assert(self@.dirty_rows =~= old(self)@.mark_rows(first, last).dirty_rows);
    }

    /// Marks rows `0..rows` dirty.
    pub fn mark_all_rows(&mut self, rows: u16)
        ensures
            final(self)@ == old(self)@.mark_all_rows(rows),
    {
        if rows > 0 {
            self.mark_rows(0, rows - 1);
        }
        assert(self@.dirty_rows =~= old(self)@.mark_all_rows(rows).dirty_rows);
    }

    /// Marks the cursor dirty.
    pub fn mark_cursor_dirty(&mut self)
        ensures
            final(self)@ == old(self)@.mark_cursor_dirty(),
    {
        self.cursor_dirty = true;
    }

    /// Hands out the damage collected so far and starts over with none.
    pub fn take(&mut self) -> (damage: RenderDamage)
        ensures
            damage@ == old(self)@,
            final(self)@ == DamageModel::empty(),
    {
        let mut rows: BTreeSet<u16> = BTreeSet::new();
        std::mem::swap(&mut rows, &mut self.dirty_rows);
        let damage = RenderDamage {
            full_rebuild: self.full_rebuild,
            dirty_rows: rows,
            selection_dirty: self.selection_dirty,
            cursor_dirty: self.cursor_dirty,
            global_dirty: self.global_dirty,
        };
        self.full_rebuild = false;
        self.selection_dirty = false;
        self.cursor_dirty = false;
        self.global_dirty = false;
        damage
    }
}

} // verus!
