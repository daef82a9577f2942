//! The flush controller: when the accumulated batch goes to the store.
//!
//! Two triggers are checked independently. The size trigger fires on the
//! append that brings the batch to its bound; the time trigger fires when the
//! timer's deadline is reached and records are pending. Either flush empties
//! the batch and sets the deadline one period after the flush.
//!
//! Persistence is best effort. A batch leaves the controller when it is
//! flushed and is never put back: if the store then refuses it, its records
//! are lost, and `settle` reports how many.

use crate::batch::Batch;
use crate::record::{pending_views, PendingRecord, PendingView};
use crate::timer::FlushTimer;
use vstd::prelude::*;

verus! {

/// The controller as a mathematical value.
pub struct FlushView {
    /// The size bound of the batch.
    pub max_batch_size: nat,
    /// The records waiting, in arrival order.
    pub pending: Seq<PendingView>,
    /// The timer's period.
    pub period: nat,
    /// When the timer was last reset.
    pub armed_at: nat,
}

impl FlushView {
    /// The time at which the time trigger fires.
    pub open spec fn deadline(self) -> nat {
        self.armed_at + self.period
    }

    /// Between two calls the batch is below its bound. A bound of zero behaves like a bound of one:
    /// every record is flushed at once, and nothing is ever left waiting.
    pub open spec fn wf(self) -> bool {
        self.pending.len() == 0 || self.pending.len() < self.max_batch_size
    }

    /// The controller after a flush at `now`: nothing pending, the deadline one period later.
    pub open spec fn flushed_at(self, now: u64) -> FlushView {
        FlushView { pending: Seq::empty(), armed_at: now as nat, ..self }
    }

    /// Whether appending one more record reaches the bound.
    pub open spec fn size_trigger(self) -> bool {
        self.pending.len() + 1 >= self.max_batch_size
    }

    /// Whether a tick at `now` finds the deadline reached.
    pub open spec fn due(self, now: u64) -> bool {
        now >= self.deadline()
    }

    /// Whether a tick at `now` flushes: the deadline is reached and records are pending.
    pub open spec fn time_trigger(self, now: u64) -> bool {
        self.due(now) && self.pending.len() > 0
    }

    /// The controller after `record` is appended at `now`.
    pub open spec fn after_append(self, record: PendingView, now: u64) -> FlushView {
        if self.size_trigger() {
            self.flushed_at(now)
        } else {
            FlushView { pending: self.pending.push(record), ..self }
        }
    }

    /// The batch that appending `record` sends to the store, if it does.
    pub open spec fn append_flushes(self, record: PendingView) -> Option<Seq<PendingView>> {
        if self.size_trigger() {
            Some(self.pending.push(record))
        } else {
            None
        }
    }

    /// The controller after a tick at `now`. A tick before the deadline changes nothing; one at or
    /// after it resets the timer, with or without records to flush.
    pub open spec fn after_tick(self, now: u64) -> FlushView {
        if self.due(now) {
            self.flushed_at(now)
        } else {
            self
        }
    }

    /// The batch that a tick at `now` sends to the store, if it does.
    pub open spec fn tick_flushes(self, now: u64) -> Option<Seq<PendingView>> {
        if self.time_trigger(now) {
            Some(self.pending)
        } else {
            None
        }
    }
}

/// The views of a flushed batch, if there is one.
pub open spec fn flushed_views(flushed: Option<Vec<PendingRecord>>) -> Option<Seq<PendingView>> {
    match flushed {
        Some(batch) => Some(pending_views(batch@)),
        None => None,
    }
}

/// The batch, its size bound and the flush timer.
pub struct FlushController {
    max_batch_size: usize,
    batch: Batch,
    timer: FlushTimer,
}

impl View for FlushController {
    type V = FlushView;

    closed spec fn view(&self) -> FlushView {
        FlushView {
            max_batch_size: self.max_batch_size as nat,
            pending: self.batch@,
            period: self.timer.period_spec(),
            armed_at: self.timer.armed_at(),
        }
    }
}

impl FlushController {
    /// An empty controller whose timer is armed at `now`.
    pub fn new(max_batch_size: usize, batch_timeout: u64, now: u64) -> (c: FlushController)
        ensures
            c@.wf(),
            c@ == (FlushView {
                max_batch_size: max_batch_size as nat,
                pending: Seq::empty(),
                period: batch_timeout as nat,
                armed_at: now as nat,
            }),
    {
        FlushController {
            max_batch_size,
            batch: Batch::new(),
            timer: FlushTimer::new(batch_timeout, now),
        }
    }

    /// The number of records waiting.
    pub fn len(&self) -> (n: usize)
        ensures
            n == self@.pending.len(),
    {
        self.batch.len()
    }

    pub fn max_batch_size(&self) -> (n: usize)
        ensures
            n == self@.max_batch_size,
    {
        self.max_batch_size
    }

    /// How long to wait at `now` for the time trigger: zero once it is due, never more than one
    /// period.
    pub fn remaining(&self, now: u64) -> (left: u64)
        ensures
            left == if now >= self@.deadline() {
                0
            } else if now >= self@.armed_at {
                self@.deadline() - now
            } else {
                self@.period as int
            },
    {
        self.timer.remaining(now)
    }

    /// Appends `record`. If that brings the batch to its bound, the whole batch is returned for
    /// the store, the controller is left empty and the timer is reset at `now`; no further record
    /// is accepted in between.
    pub fn append(&mut self, record: PendingRecord, now: u64) -> (flushed: Option<
        Vec<PendingRecord>,
    >)
        requires
            old(self)@.wf(),
        ensures
            final(self)@.wf(),
            final(self)@ == old(self)@.after_append(record@, now),
            flushed_views(flushed) == old(self)@.append_flushes(record@),
            flushed is Some <==> old(self)@.pending.len() + 1 >= old(self)@.max_batch_size,
            old(self)@.max_batch_size >= 1 ==> (flushed matches Some(batch) ==> batch@.len()
                == old(self)@.max_batch_size),
    {
        self.batch.append(record);
        if self.batch.len() >= self.max_batch_size {
            let batch = self.batch.drain();
            self.timer.reset(now);
            Some(batch)
        } else {
            None
        }
    }

    /// The timer fired at `now`. Before the deadline nothing happens. At or after it the timer is
    /// reset at `now`, and the pending records, if there are any, are returned for the store.
    pub fn tick(&mut self, now: u64) -> (flushed: Option<Vec<PendingRecord>>)
        requires
            old(self)@.wf(),
        ensures
            final(self)@.wf(),
            final(self)@ == old(self)@.after_tick(now),
            flushed_views(flushed) == old(self)@.tick_flushes(now),
            flushed is Some <==> now >= old(self)@.deadline() && old(self)@.pending.len() > 0,
    {
        if !self.timer.is_due(now) {
            return None;
        }
        self.timer.reset(now);
        if self.batch.is_empty() {
            assert(self.batch@ =~= Seq::<PendingView>::empty());
            None
        } else {
            Some(self.batch.drain())
        }
    }
}

/// What became of a flushed batch.
#[derive(Debug, Clone, Copy, PartialEq, Eq)]
pub enum FlushReport {
    /// The store took the batch.
    Persisted { records: usize },
    /// The store refused the batch, and its records are lost: they are not queued again.
    Lost { records: usize },
}

/// Closes a flush once the store has answered. The batch is consumed either way, so a refused
/// batch cannot come back into the controller.
pub fn settle(batch: Vec<PendingRecord>, persisted: bool) -> (report: FlushReport)
    ensures
        persisted ==> report == (FlushReport::Persisted { records: batch@.len() as usize }),
        !persisted ==> report == (FlushReport::Lost { records: batch@.len() as usize }),
{
    if persisted {
        FlushReport::Persisted { records: batch.len() }
    } else {
        FlushReport::Lost { records: batch.len() }
    }
}

/// With a bound of at least one, the size trigger fires exactly on the append that makes the
/// batch as long as the bound; the time trigger fires exactly on a tick at or after the deadline
/// with records pending. Whichever fires, the batch is empty afterwards and the next deadline is
/// one period after the flush.
pub proof fn lemma_flush_triggers(c: FlushView, record: PendingView, now: u64)
    requires
        c.wf(),
        c.max_batch_size >= 1,
    ensures
        c.append_flushes(record) is Some <==> c.pending.push(record).len() == c.max_batch_size,
        c.append_flushes(record) is None ==> c.after_append(record, now).pending
            == c.pending.push(record) && c.after_append(record, now).deadline() == c.deadline(),
        c.append_flushes(record) matches Some(batch) ==> batch == c.pending.push(record)
            && c.after_append(record, now).pending.len() == 0 && c.after_append(
            record,
            now,
        ).deadline() == now + c.period,
        c.tick_flushes(now) is Some <==> now >= c.deadline() && c.pending.len() > 0,
        c.tick_flushes(now) matches Some(batch) ==> batch == c.pending && c.after_tick(
            now,
        ).pending.len() == 0 && c.after_tick(now).deadline() == now + c.period,
        c.after_append(record, now).wf(),
        c.after_tick(now).wf(),
{
}

} // verus!
