//! Pending syncs with the PipeWire server, to tell when the monitor has all
//! the initial information and is waiting for new events.

use vstd::prelude::*;
use std::collections::HashSet;

verus! {

broadcast use vstd::std_specs::hash::group_hash_axioms;

pub struct SyncRegistry {
    pending: HashSet<i32>,
    done: bool,
}

pub struct SyncView {
    pub pending: Set<i32>,
    pub done: bool,
}

impl View for SyncRegistry {
    type V = SyncView;

    closed spec fn view(&self) -> SyncView {
        SyncView { pending: self.pending@, done: self.done }
    }
}

impl Default for SyncRegistry {
    fn default() -> (registry: SyncRegistry)
        ensures
            registry@.pending == Set::<i32>::empty(),
            !registry@.done,
    {
        SyncRegistry { pending: HashSet::new(), done: false }
    }
}

impl SyncRegistry {
    /// Whether syncs are still asked for: only until all the first ones are
    /// done.
    pub fn wants_sync(&self) -> (wants: bool)
        ensures
            wants == !self@.done,
    {
        !self.done
    }

    /// Registers the pending sync `seq` that was asked for, unless all the
    /// first syncs are done.
    pub fn global(&mut self, seq: i32)
        ensures
            final(self)@.done == old(self)@.done,
            final(self)@.pending == if old(self)@.done {
                old(self)@.pending
            } else {
                old(self)@.pending.insert(seq)
            },
    {
        if !self.done {
            self.pending.insert(seq);
        }
    }

    /// Marks the sync `seq` as done. True only the first time that no sync
    /// is pending.
    pub fn done(&mut self, seq: i32) -> (first: bool)
        ensures
            old(self)@.done ==> *final(self) == *old(self) && !first,
            !old(self)@.done ==> {
                &&& final(self)@.pending == old(self)@.pending.remove(seq)
                &&& first == (final(self)@.pending == Set::<i32>::empty())
                &&& final(self)@.done == first
            },
    {
        if self.done {
            return false;
        }
        self.pending.remove(&seq);
        let empty = self.pending.is_empty();
        self.done = self.done || empty;
        empty
    }
}

} // verus!
