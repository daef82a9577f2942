//! The batch accumulator: records waiting for the next flush.

use crate::record::{pending_views, PendingRecord, PendingView};
use vstd::prelude::*;

verus! {

/// The records accepted since the last flush, in arrival order. The accumulator sets no bound of
/// its own, so it never drops a record; the flush controller keeps it short.
pub struct Batch {
    records: Vec<PendingRecord>,
}

impl View for Batch {
    type V = Seq<PendingView>;

    closed spec fn view(&self) -> Seq<PendingView> {
        pending_views(self.records@)
    }
}

impl Batch {
    /// An empty batch.
    pub fn new() -> (b: Batch)
        ensures
            b@ == Seq::<PendingView>::empty(),
    {
        Batch { records: Vec::new() }
    }

    /// Adds `record` at the end.
    pub fn append(&mut self, record: PendingRecord)
        ensures
            final(self)@ == old(self)@.push(record@),
    {
        self.records.push(record);
        assert(pending_views(self.records@) == pending_views(old(self).records@).push(record@));
    }

    pub fn len(&self) -> (n: usize)
        ensures
            n == self@.len(),
    {
        self.records.len()
    }

    pub fn is_empty(&self) -> (empty: bool)
        ensures
            empty == (self@.len() == 0),
    {
        self.records.len() == 0
    }

    /// Takes every record out, in arrival order, and leaves the batch empty.
    pub fn drain(&mut self) -> (taken: Vec<PendingRecord>)
        ensures
            pending_views(taken@) == old(self)@,
            final(self)@ == Seq::<PendingView>::empty(),
    {
        let mut taken: Vec<PendingRecord> = Vec::new();
        core::mem::swap(&mut taken, &mut self.records);
        taken
    }
}

} // verus!
