//! What a whole run of the engine publishes.
//!
//! The loop feeds the engine payloads and timer ticks in some interleaving,
//! at times of its own. These laws say that what the engine publishes, and
//! what its windows hold, is a function of the records alone, in their log
//! order; and that every record queued for the store reaches it once.

use crate::aggregator::{held_for, observe};
use crate::codec::decoded;
use crate::engine::{pending_of, EngineView};
use crate::instant::{signed_millis, utc_instant};
use crate::publish::{publication_for, PublicationView};
use crate::record::{PendingView, TradeView};
use crate::window::{last_n, lemma_slide_last_n};
use vstd::prelude::*;

verus! {

/// One turn of the loop: a payload taken from the log, or a tick of the flush timer.
pub enum Input {
    Payload { bytes: Seq<u8>, now: u64 },
    Tick { now: u64 },
}

/// The prices of the records of `symbol` among `records`, in order.
pub open spec fn prices_of(records: Seq<TradeView>, symbol: Seq<char>) -> Seq<u64>
    decreases records.len(),
{
    if records.len() == 0 {
        Seq::empty()
    } else if records.last().symbol == symbol {
        prices_of(records.drop_last(), symbol).push(records.last().price)
    } else {
        prices_of(records.drop_last(), symbol)
    }
}

/// The windows after `records` were observed in order, starting with no window at all.
pub open spec fn windows_after(window_size: nat, records: Seq<TradeView>) -> Map<
    Seq<char>,
    Seq<u64>,
>
    decreases records.len(),
{
    if records.len() == 0 {
        Map::empty()
    } else {
        observe(
            windows_after(window_size, records.drop_last()),
            window_size,
            records.last().symbol,
            records.last().price,
        )
    }
}

/// What is published for `records`, one publication per record, in order: the record's price,
/// and the average over the last `window_size` prices of its symbol up to and including it.
pub open spec fn announced(window_size: nat, instrument: Seq<char>, records: Seq<TradeView>) -> Seq<
    PublicationView,
>
    decreases records.len(),
{
    if records.len() == 0 {
        Seq::empty()
    } else {
        announced(window_size, instrument, records.drop_last()).push(
            publication_for(
                instrument,
                records.last().symbol,
                records.last().price,
                last_n(prices_of(records, records.last().symbol), window_size),
                records.last().event_time,
            ),
        )
    }
}

/// The records that the payloads among `inputs` decode to, in order. Payloads that do not decode
/// and ticks give none.
pub open spec fn trades_in(inputs: Seq<Input>) -> Seq<TradeView>
    decreases inputs.len(),
{
    if inputs.len() == 0 {
        Seq::empty()
    } else {
        match inputs.last() {
            Input::Payload { bytes, now } => match decoded(bytes) {
                Ok(trade) => trades_in(inputs.drop_last()).push(trade),
                Err(_) => trades_in(inputs.drop_last()),
            },
            Input::Tick { now } => trades_in(inputs.drop_last()),
        }
    }
}

/// The engine after one turn of the loop.
pub open spec fn after_input(engine: EngineView, input: Input) -> EngineView {
    match input {
        Input::Payload { bytes, now } => engine.after_payload(bytes, now),
        Input::Tick { now } => engine.after_tick(now),
    }
}

/// The engine after `inputs`, taken in order.
pub open spec fn after_inputs(engine: EngineView, inputs: Seq<Input>) -> EngineView
    decreases inputs.len(),
{
    if inputs.len() == 0 {
        engine
    } else {
        after_input(after_inputs(engine, inputs.drop_last()), inputs.last())
    }
}

/// What the engine publishes over `inputs`, in order.
pub open spec fn published(engine: EngineView, inputs: Seq<Input>) -> Seq<PublicationView>
    decreases inputs.len(),
{
    if inputs.len() == 0 {
        Seq::empty()
    } else {
        let before = after_inputs(engine, inputs.drop_last());
        match inputs.last() {
            Input::Payload { bytes, now } => match decoded(bytes) {
                Ok(trade) => published(engine, inputs.drop_last()).push(
                    before.step(
                        trade,
                        utc_instant(signed_millis(trade.event_time)),
                    ).publication,
                ),
                Err(_) => published(engine, inputs.drop_last()),
            },
            Input::Tick { now } => published(engine, inputs.drop_last()),
        }
    }
}

/// The records that `inputs` queue for the store, in order: one for each payload that decodes
/// to a trade whose event time has an instant.
pub open spec fn queued_in(inputs: Seq<Input>) -> Seq<PendingView>
    decreases inputs.len(),
{
    if inputs.len() == 0 {
        Seq::empty()
    } else {
        match inputs.last() {
            Input::Payload { bytes, now } => match decoded(bytes) {
                Ok(trade) => match utc_instant(signed_millis(trade.event_time)) {
                    Some(at) => queued_in(inputs.drop_last()).push(pending_of(trade, at)),
                    None => queued_in(inputs.drop_last()),
                },
                Err(_) => queued_in(inputs.drop_last()),
            },
            Input::Tick { now } => queued_in(inputs.drop_last()),
        }
    }
}

/// The batch that the engine sends to the store on `input`; empty where it sends none.
pub open spec fn flushed_on(engine: EngineView, input: Input) -> Seq<PendingView> {
    let flushed = match input {
        Input::Payload { bytes, now } => match decoded(bytes) {
            Ok(trade) => engine.step(trade, utc_instant(signed_millis(trade.event_time))).flushed,
            Err(_) => None,
        },
        Input::Tick { now } => engine.flush.tick_flushes(now),
    };
    match flushed {
        Some(batch) => batch,
        None => Seq::empty(),
    }
}

/// All that the engine sends to the store over `inputs`: its batches, one after the other.
pub open spec fn flushed_over(engine: EngineView, inputs: Seq<Input>) -> Seq<PendingView>
    decreases inputs.len(),
{
    if inputs.len() == 0 {
        Seq::empty()
    } else {
        flushed_over(engine, inputs.drop_last()) + flushed_on(
            after_inputs(engine, inputs.drop_last()),
            inputs.last(),
        )
    }
}

/// After any records, the window of every symbol holds exactly the last `window_size` prices
/// seen for that symbol, oldest first, or all of them while they are fewer; a symbol never seen
/// has none.
pub proof fn lemma_windows_hold_most_recent(
    window_size: nat,
    records: Seq<TradeView>,
    symbol: Seq<char>,
)
    ensures
        held_for(windows_after(window_size, records), symbol) == last_n(
            prices_of(records, symbol),
            window_size,
        ),
    decreases records.len(),
{
    if records.len() > 0 {
        let earlier = records.drop_last();
        lemma_windows_hold_most_recent(window_size, earlier, symbol);
        lemma_windows_hold_most_recent(window_size, earlier, records.last().symbol);
        lemma_slide_last_n(
            prices_of(earlier, records.last().symbol),
            window_size,
            records.last().price,
        );
    }
}

/// Whatever the interleaving of payloads and ticks, whatever the times, the batch bound and the
/// timer's period: an engine that starts cold holds the windows of the records it decoded, and
/// has published for each of them, in order, its price and the average over the most recent
/// prices of its symbol. Malformed payloads and ticks leave no trace in either. The batch stays
/// below its bound throughout.
pub proof fn lemma_run_follows_records(
    window_size: nat,
    max_batch_size: nat,
    batch_timeout: nat,
    instrument: Seq<char>,
    start: u64,
    inputs: Seq<Input>,
)
    ensures
        ({
            let cold = EngineView::cold(
                window_size,
                max_batch_size,
                batch_timeout,
                instrument,
                start,
            );
            let end = after_inputs(cold, inputs);
            &&& end.window_size == window_size
            &&& end.instrument == instrument
            &&& end.flush.max_batch_size == max_batch_size
            &&& end.flush.period == batch_timeout
            &&& end.flush.wf()
            &&& end.windows == windows_after(window_size, trades_in(inputs))
            &&& published(cold, inputs) == announced(window_size, instrument, trades_in(inputs))
        }),
    decreases inputs.len(),
{
    let cold = EngineView::cold(window_size, max_batch_size, batch_timeout, instrument, start);
    if inputs.len() > 0 {
        let earlier = inputs.drop_last();
        lemma_run_follows_records(
            window_size,
            max_batch_size,
            batch_timeout,
            instrument,
            start,
            earlier,
        );
        let before = after_inputs(cold, earlier);
        match inputs.last() {
            Input::Payload { bytes, now } => match decoded(bytes) {
                Ok(trade) => {
                    let records = trades_in(inputs);
                    assert(records.drop_last() == trades_in(earlier));
                    assert(records.last() == trade);
                    lemma_windows_hold_most_recent(window_size, trades_in(earlier), trade.symbol);
                    lemma_slide_last_n(
                        prices_of(trades_in(earlier), trade.symbol),
                        window_size,
                        trade.price,
                    );
                },
                Err(_) => {},
            },
            Input::Tick { now } => {},
        }
    }
}

/// The engine neither drops nor repeats a record on its way to the store: at any point of a run
/// from a cold start, the batches sent so far, followed by what is still pending, are exactly the
/// records queued so far, in their order.
pub proof fn lemma_every_queued_record_is_flushed_once(
    window_size: nat,
    max_batch_size: nat,
    batch_timeout: nat,
    instrument: Seq<char>,
    start: u64,
    inputs: Seq<Input>,
)
    ensures
        ({
            let cold = EngineView::cold(
                window_size,
                max_batch_size,
                batch_timeout,
                instrument,
                start,
            );
            flushed_over(cold, inputs) + after_inputs(cold, inputs).flush.pending == queued_in(
                inputs,
            )
        }),
    decreases inputs.len(),
{
    let cold = EngineView::cold(window_size, max_batch_size, batch_timeout, instrument, start);
    if inputs.len() > 0 {
        let earlier = inputs.drop_last();
        lemma_every_queued_record_is_flushed_once(
            window_size,
            max_batch_size,
            batch_timeout,
            instrument,
            start,
            earlier,
        );
        let before = after_inputs(cold, earlier);
        let sent = flushed_over(cold, earlier);
        let after = after_inputs(cold, inputs);
        assert(sent + before.flush.pending == queued_in(earlier));
        match inputs.last() {
            Input::Payload { bytes, now } => match decoded(bytes) {
                Ok(trade) => match utc_instant(signed_millis(trade.event_time)) {
                    Some(at) => {
                        assert(flushed_over(cold, inputs) + after.flush.pending =~= (sent
                            + before.flush.pending).push(pending_of(trade, at)));
                    },
                    None => {
                        assert(flushed_over(cold, inputs) + after.flush.pending =~= sent
                            + before.flush.pending);
                    },
                },
                Err(_) => {
                    assert(flushed_over(cold, inputs) + after.flush.pending =~= sent
                        + before.flush.pending);
                },
            },
            Input::Tick { now } => {
                assert(flushed_over(cold, inputs) + after.flush.pending =~= sent
                    + before.flush.pending);
            },
        }
    } else {
        assert(flushed_over(cold, inputs) + after_inputs(cold, inputs).flush.pending
            =~= queued_in(inputs));
    }
}

/// Replaying the same records gives the same publications: two runs from a cold start, with the
/// same window size and instrument, publish the same sequence whenever they decode the same
/// records in the same order, however the runs differ in timing, in ticks, in malformed payloads
/// or in how they batch.
pub proof fn lemma_replay_publishes_the_same(
    window_size: nat,
    instrument: Seq<char>,
    first_bound: nat,
    first_timeout: nat,
    first_start: u64,
    first_inputs: Seq<Input>,
    second_bound: nat,
    second_timeout: nat,
    second_start: u64,
    second_inputs: Seq<Input>,
)
    requires
        trades_in(first_inputs) == trades_in(second_inputs),
    ensures
        ({
            let first = EngineView::cold(
                window_size,
                first_bound,
                first_timeout,
                instrument,
                first_start,
            );
            let second = EngineView::cold(
                window_size,
                second_bound,
                second_timeout,
                instrument,
                second_start,
            );
            &&& published(first, first_inputs) == published(second, second_inputs)
            &&& after_inputs(first, first_inputs).windows == after_inputs(
                second,
                second_inputs,
            ).windows
        }),
{
    lemma_run_follows_records(
        window_size,
        first_bound,
        first_timeout,
        instrument,
        first_start,
        first_inputs,
    );
    lemma_run_follows_records(
        window_size,
        second_bound,
        second_timeout,
        instrument,
        second_start,
        second_inputs,
    );
}

} // verus!
