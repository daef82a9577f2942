//! The relay of updates to one live subscriber of the gateway.
//!
//! Updates are passed on as they come, unchanged, and no update is held for a
//! subscriber that cannot keep up: a subscriber that fell behind, or whose
//! connection refused a message, is dropped.

use vstd::prelude::*;

verus! {

/// What happened on a subscriber's connection or on the feed of updates.
#[derive(Debug, Clone, PartialEq, Eq)]
pub enum RelayEvent {
    /// An update arrived on the feed.
    Update(String),
    /// The subscriber fell behind, and updates meant for it were discarded.
    Lagged,
    /// The feed has ended.
    FeedClosed,
    /// The connection did not take the last message.
    SendFailed,
}

/// What to do on a subscriber's connection.
#[derive(Debug, Clone, PartialEq, Eq)]
pub enum RelayAction {
    /// Send this text to the subscriber, as it is.
    Send(String),
    /// Close the connection and stop relaying.
    Close,
    /// Nothing: the relay has stopped.
    Idle,
}

/// The relay to one subscriber.
pub struct Relay {
    open: bool,
}

impl Relay {
    /// Whether updates are still passed on.
    pub closed spec fn is_open(&self) -> bool {
        self.open
    }

    /// A relay to a subscriber that has just connected.
    pub fn new() -> (r: Relay)
        ensures
            r.is_open(),
    {
        Relay { open: true }
    }

    pub fn open(&self) -> (open: bool)
        ensures
            open == self.is_open(),
    {
        self.open
    }

    /// Takes one event. While the relay is open, an update is sent on verbatim and anything else
    /// closes it; once closed it stays closed and does nothing.
    pub fn handle(&mut self, event: RelayEvent) -> (action: RelayAction)
        ensures
            final(self).is_open() == (old(self).is_open() && event is Update),
            !old(self).is_open() ==> action == RelayAction::Idle,
            old(self).is_open() ==> match event {
                RelayEvent::Update(text) => action == RelayAction::Send(text),
                _ => action == RelayAction::Close,
            },
    {
        if !self.open {
            return RelayAction::Idle;
        }
        match event {
            RelayEvent::Update(text) => RelayAction::Send(text),
            _ => {
                self.open = false;
                RelayAction::Close
            },
        }
    }
}

} // verus!
