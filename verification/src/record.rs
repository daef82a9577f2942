//! The records that pass through the engine.

use vstd::prelude::*;

verus! {

/// One trade as decoded from the log. `price` and `quantity` are binary64 bit patterns;
/// `event_time` is in milliseconds since the Unix epoch.
#[derive(Debug, Clone, PartialEq, Eq)]
pub struct TradeRecord {
    pub symbol: String,
    pub price: u64,
    pub quantity: u64,
    pub event_time: u64,
}

/// A trade record as a mathematical value.
pub struct TradeView {
    pub symbol: Seq<char>,
    pub price: u64,
    pub quantity: u64,
    pub event_time: u64,
}

impl View for TradeRecord {
    type V = TradeView;

    open spec fn view(&self) -> TradeView {
        TradeView {
            symbol: self.symbol@,
            price: self.price,
            quantity: self.quantity,
            event_time: self.event_time,
        }
    }
}

/// A record waiting to be written to the time-series store. `persisted_time` is the instant
/// derived from the trade's event time, in milliseconds since the Unix epoch.
#[derive(Debug, Clone, PartialEq, Eq)]
pub struct PendingRecord {
    pub symbol: String,
    pub price: u64,
    pub persisted_time: i64,
}

/// A pending record as a mathematical value.
pub struct PendingView {
    pub symbol: Seq<char>,
    pub price: u64,
    pub persisted_time: i64,
}

impl View for PendingRecord {
    type V = PendingView;

    open spec fn view(&self) -> PendingView {
        PendingView {
            symbol: self.symbol@,
            price: self.price,
            persisted_time: self.persisted_time,
        }
    }
}

/// The views of `records`, in order.
pub open spec fn pending_views(records: Seq<PendingRecord>) -> Seq<PendingView> {
    records.map_values(|r: PendingRecord| r@)
}

} // verus!
