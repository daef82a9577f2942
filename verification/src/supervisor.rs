//! The stream loop supervisor: the state machine that drives the engine.
//!
//! The supervisor decides; the loop around it acts. The loop reports what
//! happened as an `Event`, the supervisor moves to its next phase and answers
//! with a `Reaction` that says what to do. It never blocks and never fails:
//! setting up the subscription is retried after a fixed backoff for as long
//! as it takes, and once records flow, a failed receive or a malformed
//! payload costs one turn of the loop and nothing else.

use crate::codec::decoded;
use crate::engine::{Engine, EngineView, Step, StepView};
use crate::instant::{signed_millis, utc_instant};
use crate::record::{pending_views, PendingRecord, PendingView};
use crate::wire::DecodeError;
use vstd::prelude::*;

verus! {

/// Where the loop stands.
#[derive(Debug, Clone, Copy, PartialEq, Eq)]
pub enum Phase {
    /// No subscription has been tried or answered yet.
    Connecting,
    /// The subscription stands; no turn of the loop has been taken since.
    Subscribed,
    /// Records and ticks are being processed: the steady state.
    Running,
    /// The subscription failed or was lost, and is being set up again.
    Reconnecting,
}

/// What the loop reports.
#[derive(Debug, Clone, PartialEq, Eq)]
pub enum Event {
    /// The loop starts.
    Started,
    /// The log accepted the subscription.
    SubscribeSucceeded,
    /// The log refused the subscription, or could not be reached.
    SubscribeFailed,
    /// The backoff interval has passed.
    BackoffElapsed,
    /// The log delivered a payload.
    Payload(Vec<u8>),
    /// A receive failed; the subscription still stands.
    ReceiveFailed,
    /// The flush timer's deadline has passed.
    TimerFired,
    /// The subscription is gone.
    SubscriptionLost,
}

/// An event as a mathematical value.
pub enum EventView {
    Started,
    SubscribeSucceeded,
    SubscribeFailed,
    BackoffElapsed,
    Payload(Seq<u8>),
    ReceiveFailed,
    TimerFired,
    SubscriptionLost,
}

impl View for Event {
    type V = EventView;

    open spec fn view(&self) -> EventView {
        match self {
            Event::Started => EventView::Started,
            Event::SubscribeSucceeded => EventView::SubscribeSucceeded,
            Event::SubscribeFailed => EventView::SubscribeFailed,
            Event::BackoffElapsed => EventView::BackoffElapsed,
            Event::Payload(bytes) => EventView::Payload(bytes@),
            Event::ReceiveFailed => EventView::ReceiveFailed,
            Event::TimerFired => EventView::TimerFired,
            Event::SubscriptionLost => EventView::SubscriptionLost,
        }
    }
}

/// What the loop is to do next.
#[derive(Debug, Clone, PartialEq, Eq)]
pub enum Reaction {
    /// Try to subscribe to the log.
    Subscribe,
    /// Wait this many milliseconds, then report `BackoffElapsed`.
    Backoff { millis: u64 },
    /// A record was processed: send out its publication, and write its batch to the store if it
    /// has one, before the next payload is taken.
    Published(Step),
    /// The payload was malformed and is skipped: log the error.
    Skipped(DecodeError),
    /// The time trigger fired: write this batch to the store.
    Flushed(Vec<PendingRecord>),
    /// Nothing to do but wait for the next event.
    Nothing,
}

/// A reaction as a mathematical value.
pub enum ReactionView {
    Subscribe,
    Backoff { millis: u64 },
    Published(StepView),
    Skipped(DecodeError),
    Flushed(Seq<PendingView>),
    Nothing,
}

impl View for Reaction {
    type V = ReactionView;

    open spec fn view(&self) -> ReactionView {
        match self {
            Reaction::Subscribe => ReactionView::Subscribe,
            Reaction::Backoff { millis } => ReactionView::Backoff { millis: *millis },
            Reaction::Published(step) => ReactionView::Published(step@),
            Reaction::Skipped(e) => ReactionView::Skipped(*e),
            Reaction::Flushed(batch) => ReactionView::Flushed(pending_views(batch@)),
            Reaction::Nothing => ReactionView::Nothing,
        }
    }
}

/// The supervisor as a mathematical value.
pub struct SupervisorView {
    pub phase: Phase,
    /// The wait between two attempts to subscribe, in milliseconds.
    pub backoff: u64,
    pub engine: EngineView,
}

/// Whether records and ticks are processed in `phase`.
pub open spec fn consuming(phase: Phase) -> bool {
    phase == Phase::Subscribed || phase == Phase::Running
}

/// Whether a subscription is being set up in `phase`.
pub open spec fn subscribing(phase: Phase) -> bool {
    phase == Phase::Connecting || phase == Phase::Reconnecting
}

/// The phase that follows `phase` on `event`. An event that has no meaning in a phase leaves it.
pub open spec fn next_phase(phase: Phase, event: EventView) -> Phase {
    match event {
        EventView::Started => phase,
        EventView::SubscribeSucceeded => if subscribing(phase) {
            Phase::Subscribed
        } else {
            phase
        },
        EventView::SubscribeFailed => if subscribing(phase) {
            Phase::Reconnecting
        } else {
            phase
        },
        EventView::BackoffElapsed => phase,
        EventView::Payload(_) => if consuming(phase) {
            Phase::Running
        } else {
            phase
        },
        EventView::ReceiveFailed => if consuming(phase) {
            Phase::Running
        } else {
            phase
        },
        EventView::TimerFired => if consuming(phase) {
            Phase::Running
        } else {
            phase
        },
        EventView::SubscriptionLost => if consuming(phase) {
            Phase::Reconnecting
        } else {
            phase
        },
    }
}

impl SupervisorView {
    /// The engine after `event` at `now`. Only a payload or a tick that arrives while records
    /// are consumed reaches the engine.
    pub open spec fn engine_after(self, event: EventView, now: u64) -> EngineView {
        if consuming(self.phase) {
            match event {
                EventView::Payload(bytes) => self.engine.after_payload(bytes, now),
                EventView::TimerFired => self.engine.after_tick(now),
                _ => self.engine,
            }
        } else {
            self.engine
        }
    }

    /// The supervisor after `event` at `now`.
    pub open spec fn after(self, event: EventView, now: u64) -> SupervisorView {
        SupervisorView {
            phase: next_phase(self.phase, event),
            backoff: self.backoff,
            engine: self.engine_after(event, now),
        }
    }

    /// What the loop is told to do on `event` at `now`.
    pub open spec fn reaction(self, event: EventView, now: u64) -> ReactionView {
        match event {
            EventView::Started => if self.phase == Phase::Connecting {
                ReactionView::Subscribe
            } else {
                ReactionView::Nothing
            },
            EventView::SubscribeSucceeded => ReactionView::Nothing,
            EventView::SubscribeFailed => if subscribing(self.phase) {
                ReactionView::Backoff { millis: self.backoff }
            } else {
                ReactionView::Nothing
            },
            EventView::BackoffElapsed => if self.phase == Phase::Reconnecting {
                ReactionView::Subscribe
            } else {
                ReactionView::Nothing
            },
            EventView::Payload(bytes) => if consuming(self.phase) {
                match decoded(bytes) {
                    Ok(trade) => ReactionView::Published(
                        self.engine.step(trade, utc_instant(signed_millis(trade.event_time))),
                    ),
                    Err(e) => ReactionView::Skipped(e),
                }
            } else {
                ReactionView::Nothing
            },
            EventView::ReceiveFailed => ReactionView::Nothing,
            EventView::TimerFired => if consuming(self.phase) {
                match self.engine.flush.tick_flushes(now) {
                    Some(batch) => ReactionView::Flushed(batch),
                    None => ReactionView::Nothing,
                }
            } else {
                ReactionView::Nothing
            },
            EventView::SubscriptionLost => if consuming(self.phase) {
                ReactionView::Backoff { millis: self.backoff }
            } else {
                ReactionView::Nothing
            },
        }
    }
}

/// The supervisor: the phase of the loop, and the engine that it alone owns.
pub struct Supervisor {
    phase: Phase,
    backoff: u64,
    engine: Engine,
}

impl View for Supervisor {
    type V = SupervisorView;

    closed spec fn view(&self) -> SupervisorView {
        SupervisorView { phase: self.phase, backoff: self.backoff, engine: self.engine@ }
    }
}

impl Supervisor {
    /// The engine is well formed.
    pub closed spec fn wf(&self) -> bool {
        self.engine.wf()
    }

    /// A supervisor that has not subscribed yet, around `engine`. `backoff` is the wait between
    /// two attempts to subscribe, in milliseconds.
    pub fn new(engine: Engine, backoff: u64) -> (s: Supervisor)
        requires
            engine.wf(),
        ensures
            s.wf(),
            s@ == (SupervisorView { phase: Phase::Connecting, backoff, engine: engine@ }),
    {
        Supervisor { phase: Phase::Connecting, backoff, engine }
    }

    pub fn phase(&self) -> (p: Phase)
        ensures
            p == self@.phase,
    {
        self.phase
    }

    /// The engine, to look at.
    pub fn engine(&self) -> (e: &Engine)
        requires
            self.wf(),
        ensures
            e.wf(),
            e@ == self@.engine,
    {
        &self.engine
    }

    /// How long the loop may wait at `now` for the next payload before it reports `TimerFired`;
    /// `None` while no records are consumed and there is no deadline to keep.
    pub fn wait_limit(&self, now: u64) -> (limit: Option<u64>)
        ensures
            limit is Some <==> consuming(self@.phase),
            limit matches Some(left) ==> left == if now >= self@.engine.flush.deadline() {
                0
            } else if now >= self@.engine.flush.armed_at {
                self@.engine.flush.deadline() - now
            } else {
                self@.engine.flush.period as int
            },
    {
        match self.phase {
            Phase::Subscribed | Phase::Running => Some(self.engine.time_to_deadline(now)),
            _ => None,
        }
    }

    /// Takes one event at time `now`, moves to the next phase and says what to do.
    pub fn handle(&mut self, event: Event, now: u64) -> (reaction: Reaction)
        requires
            old(self).wf(),
        ensures
            final(self).wf(),
            final(self)@ == old(self)@.after(event@, now),
            reaction@ == old(self)@.reaction(event@, now),
            event@ is Payload && reaction is Skipped ==> final(self)@.engine == old(self)@.engine,
    {
        let consuming = match self.phase {
            Phase::Subscribed | Phase::Running => true,
            _ => false,
        };
        let subscribing = !consuming;
        match event {
            Event::Started => match self.phase {
                Phase::Connecting => Reaction::Subscribe,
                _ => Reaction::Nothing,
            },
            Event::SubscribeSucceeded => {
                if subscribing {
                    self.phase = Phase::Subscribed;
                }
                Reaction::Nothing
            },
            Event::SubscribeFailed => {
                if subscribing {
                    self.phase = Phase::Reconnecting;
                    Reaction::Backoff { millis: self.backoff }
                } else {
                    Reaction::Nothing
                }
            },
            Event::BackoffElapsed => match self.phase {
                Phase::Reconnecting => Reaction::Subscribe,
                _ => Reaction::Nothing,
            },
            Event::Payload(bytes) => {
                if consuming {
                    self.phase = Phase::Running;
                    match self.engine.process_payload(bytes.as_slice(), now) {
                        Ok(step) => Reaction::Published(step),
                        Err(e) => Reaction::Skipped(e),
                    }
                } else {
                    Reaction::Nothing
                }
            },
            Event::ReceiveFailed => {
                if consuming {
                    self.phase = Phase::Running;
                }
                Reaction::Nothing
            },
            Event::TimerFired => {
                if consuming {
                    self.phase = Phase::Running;
                    match self.engine.on_tick(now) {
                        Some(batch) => Reaction::Flushed(batch),
                        None => Reaction::Nothing,
                    }
                } else {
                    Reaction::Nothing
                }
            },
            Event::SubscriptionLost => {
                if consuming {
                    self.phase = Phase::Reconnecting;
                    Reaction::Backoff { millis: self.backoff }
                } else {
                    Reaction::Nothing
                }
            },
        }
    }
}

/// No phase is terminal: from every phase some event leads on, and the loop is never told to
/// stop. A failed subscription is always answered with a backoff and another attempt, however
/// many have failed before.
pub proof fn lemma_no_phase_is_terminal(s: SupervisorView, now: u64)
    ensures
        subscribing(s.phase) ==> s.after(EventView::SubscribeSucceeded, now).phase
            == Phase::Subscribed,
        subscribing(s.phase) ==> s.after(EventView::SubscribeFailed, now).phase
            == Phase::Reconnecting && s.reaction(EventView::SubscribeFailed, now) == (
        ReactionView::Backoff { millis: s.backoff }),
        s.phase == Phase::Reconnecting ==> s.reaction(EventView::BackoffElapsed, now)
            == ReactionView::Subscribe,
        consuming(s.phase) ==> s.after(EventView::TimerFired, now).phase == Phase::Running,
        consuming(s.phase) ==> s.after(EventView::SubscriptionLost, now).phase
            == Phase::Reconnecting,
        forall|bytes: Seq<u8>|
            consuming(s.phase) ==> (#[trigger] s.after(EventView::Payload(bytes), now)).phase
                == Phase::Running,
{
}

} // verus!
