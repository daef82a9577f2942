//! The engine: one record in, one publication out, and now and then a batch for the store.
//!
//! The engine owns the windows, the batch and the flush timer. It is driven by
//! a single loop, one event at a time, so what it sends out for a record is
//! made of that record and of the records before it, in log order, and of
//! nothing else.

use crate::aggregator::{held_for, observe, WindowAggregator};
use crate::codec::{decode, decoded};
use crate::flush::{flushed_views, FlushController, FlushView};
use crate::instant::{persisted_instant, signed_millis, utc_instant};
use crate::publish::{publication_for, Publication, PublicationView, Publisher};
use crate::record::{PendingRecord, PendingView, TradeRecord, TradeView};
use crate::window::slide;
use crate::wire::DecodeError;
use vstd::prelude::*;

verus! {

/// The engine as a mathematical value.
pub struct EngineView {
    /// The number of prices each window keeps.
    pub window_size: nat,
    /// The prices held per symbol, oldest first.
    pub windows: Map<Seq<char>, Seq<u64>>,
    /// The batch and its timer.
    pub flush: FlushView,
    /// The instrument whose cache keys are written.
    pub instrument: Seq<char>,
}

/// What one record brought about, as a mathematical value.
pub struct StepView {
    pub publication: PublicationView,
    pub queued: bool,
    pub flushed: Option<Seq<PendingView>>,
}

/// The record that is queued for a trade persisted at `instant`.
pub open spec fn pending_of(trade: TradeView, instant: i64) -> PendingView {
    PendingView { symbol: trade.symbol, price: trade.price, persisted_time: instant }
}

impl EngineView {
    /// An engine that has seen nothing, with its timer armed at `now`.
    pub open spec fn cold(
        window_size: nat,
        max_batch_size: nat,
        batch_timeout: nat,
        instrument: Seq<char>,
        now: u64,
    ) -> EngineView {
        EngineView {
            window_size,
            windows: Map::empty(),
            flush: FlushView {
                max_batch_size,
                pending: Seq::empty(),
                period: batch_timeout,
                armed_at: now as nat,
            },
            instrument,
        }
    }

    /// The moving average that `trade` yields: its symbol's window with the trade's price on top.
    pub open spec fn average_with(self, trade: TradeView) -> Seq<u64> {
        slide(held_for(self.windows, trade.symbol), self.window_size, trade.price)
    }

    /// The engine after `trade`, where `instant` is what its event time converts to. The window of
    /// its symbol slides in any case. The record is queued only if the event time converts.
    pub open spec fn after_trade(self, trade: TradeView, instant: Option<i64>, now: u64)
        -> EngineView {
        EngineView {
            windows: observe(self.windows, self.window_size, trade.symbol, trade.price),
            flush: match instant {
                Some(at) => self.flush.after_append(pending_of(trade, at), now),
                None => self.flush,
            },
            ..self
        }
    }

    /// What `trade` brings about: the publication of its price and average, and the batch that
    /// goes to the store if queueing it reaches the size bound.
    pub open spec fn step(self, trade: TradeView, instant: Option<i64>) -> StepView {
        StepView {
            publication: publication_for(
                self.instrument,
                trade.symbol,
                trade.price,
                self.average_with(trade),
                trade.event_time,
            ),
            queued: instant is Some,
            flushed: match instant {
                Some(at) => self.flush.append_flushes(pending_of(trade, at)),
                None => None,
            },
        }
    }

    /// The engine after a payload of the log arrived at `now`. A payload that does not decode
    /// leaves the engine as it was.
    pub open spec fn after_payload(self, payload: Seq<u8>, now: u64) -> EngineView {
        match decoded(payload) {
            Ok(trade) => self.after_trade(
                trade,
                utc_instant(signed_millis(trade.event_time)),
                now,
            ),
            Err(_) => self,
        }
    }

    /// The engine after a timer tick at `now`: only the batch and the timer can change.
    pub open spec fn after_tick(self, now: u64) -> EngineView {
        EngineView { flush: self.flush.after_tick(now), ..self }
    }
}

/// What one record brought about.
#[derive(Debug, Clone, PartialEq, Eq)]
pub struct Step {
    /// What to write to the cache and announce to subscribers.
    pub publication: Publication,
    /// Whether the record was queued for the store. It is not if its event time has no instant:
    /// such a record is published and then dropped.
    pub queued: bool,
    /// The batch to write to the store now, if this record brought the batch to its bound.
    pub flushed: Option<Vec<PendingRecord>>,
}

impl View for Step {
    type V = StepView;

    open spec fn view(&self) -> StepView {
        StepView {
            publication: self.publication@,
            queued: self.queued,
            flushed: flushed_views(self.flushed),
        }
    }
}

/// The stream aggregation and batching engine.
pub struct Engine {
    windows: WindowAggregator,
    flush: FlushController,
    publisher: Publisher,
}

impl View for Engine {
    type V = EngineView;

    closed spec fn view(&self) -> EngineView {
        EngineView {
            window_size: self.windows.limit(),
            windows: self.windows@,
            flush: self.flush@,
            instrument: self.publisher@,
        }
    }
}

impl Engine {
    /// The windows are well formed and the batch is below its bound.
    pub closed spec fn wf(&self) -> bool {
        &&& self.windows.wf()
        &&& self.flush@.wf()
    }

    /// An engine that has seen nothing. Its flush timer is armed at `now`.
    pub fn new(
        window_size: usize,
        max_batch_size: usize,
        batch_timeout: u64,
        instrument: String,
        now: u64,
    ) -> (e: Engine)
        ensures
            e.wf(),
            e@ == EngineView::cold(
                window_size as nat,
                max_batch_size as nat,
                batch_timeout as nat,
                instrument@,
                now,
            ),
    {
        Engine {
            windows: WindowAggregator::new(window_size),
            flush: FlushController::new(max_batch_size, batch_timeout, now),
            publisher: Publisher::new(instrument),
        }
    }

    /// The number of records waiting for the store.
    pub fn pending(&self) -> (n: usize)
        ensures
            n == self@.flush.pending.len(),
    {
        self.flush.len()
    }

    /// The prices held for `symbol`, oldest first.
    pub fn window(&self, symbol: &String) -> (held: Vec<u64>)
        requires
            self.wf(),
        ensures
            held@ == held_for(self@.windows, symbol@),
    {
        self.windows.prices(symbol)
    }

    /// How long the loop may wait at `now` for a record before the flush timer is due.
    pub fn time_to_deadline(&self, now: u64) -> (left: u64)
        ensures
            left == if now >= self@.flush.deadline() {
                0
            } else if now >= self@.flush.armed_at {
                self@.flush.deadline() - now
            } else {
                self@.flush.period as int
            },
    {
        self.flush.remaining(now)
    }

    /// Processes `trade`, given the instant that its event time converts to. The window of its
    /// symbol slides, the price and the new average are published, and the record is queued for
    /// the store, which flushes the batch if that reaches the bound.
    pub fn apply_trade(&mut self, trade: TradeRecord, instant: Option<i64>, now: u64) -> (step:
        Step)
        requires
            old(self).wf(),
        ensures
            final(self).wf(),
            final(self)@ == old(self)@.after_trade(trade@, instant, now),
            step@ == old(self)@.step(trade@, instant),
            step.publication.symbol@ == trade.symbol@,
            step.publication.price == trade.price,
            step.publication.average@ == held_for(final(self)@.windows, trade.symbol@),
    {
        let average = self.windows.update(&trade.symbol, trade.price);
        let publication = self.publisher.publish(
            &trade.symbol,
            trade.price,
            average,
            trade.event_time,
        );
        match instant {
            Some(at) => {
                let record = PendingRecord {
                    symbol: trade.symbol,
                    price: trade.price,
                    persisted_time: at,
                };
                let flushed = self.flush.append(record, now);
                Step { publication, queued: true, flushed }
            },
            None => Step { publication, queued: false, flushed: None },
        }
    }

    /// Processes `trade`: converts its event time and applies it. What comes of it is what
    /// `apply_trade` gives for the instant that chrono makes of the event time.
    pub fn process_trade(&mut self, trade: TradeRecord, now: u64) -> (step: Step)
        requires
            old(self).wf(),
        ensures
            final(self).wf(),
            final(self)@ == old(self)@.after_trade(
                trade@,
                utc_instant(signed_millis(trade.event_time)),
                now,
            ),
            step@ == old(self)@.step(trade@, utc_instant(signed_millis(trade.event_time))),
            final(self)@.windows == observe(
                old(self)@.windows,
                old(self)@.window_size,
                trade.symbol@,
                trade.price,
            ),
            step.publication.symbol@ == trade.symbol@,
            step.publication.price == trade.price,
            step.publication.average@ == held_for(final(self)@.windows, trade.symbol@),
    {
        let instant = persisted_instant(trade.event_time);
        self.apply_trade(trade, instant, now)
    }

    /// Processes one payload of the log: decodes it and processes the trade. A payload that does
    /// not decode is skipped: the error says why, and the windows, the batch and the timer are
    /// exactly as they were.
    pub fn process_payload(&mut self, payload: &[u8], now: u64) -> (outcome: Result<
        Step,
        DecodeError,
    >)
        requires
            old(self).wf(),
        ensures
            final(self).wf(),
            final(self)@ == old(self)@.after_payload(payload@, now),
            match outcome {
                Ok(step) => {
                    &&& decoded(payload@) matches Ok(trade)
                    &&& final(self)@ == old(self)@.after_trade(
                        trade,
                        utc_instant(signed_millis(trade.event_time)),
                        now,
                    )
                    &&& step@ == old(self)@.step(
                        trade,
                        utc_instant(signed_millis(trade.event_time)),
                    )
                },
                Err(e) => decoded(payload@) == Err::<TradeView, _>(e) && *final(self) == *old(
                    self,
                ),
            },
    {
        match decode(payload) {
            Ok(trade) => Ok(self.process_trade(trade, now)),
            Err(e) => Err(e),
        }
    }

    /// The flush timer fired at `now`. If the deadline is reached, the timer is reset at `now` and
    /// the pending records, if any, are returned for the store. The windows do not change.
    pub fn on_tick(&mut self, now: u64) -> (flushed: Option<Vec<PendingRecord>>)
        requires
            old(self).wf(),
        ensures
            final(self).wf(),
            final(self)@ == old(self)@.after_tick(now),
            flushed_views(flushed) == old(self)@.flush.tick_flushes(now),
            flushed is Some <==> now >= old(self)@.flush.deadline() && old(
                self,
            )@.flush.pending.len() > 0,
    {
        self.flush.tick(now)
    }
}

} // verus!
