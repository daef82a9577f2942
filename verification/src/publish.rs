//! The fan-out publisher: what goes to the cache and to live subscribers for one record.

use crate::window::Average;
use vstd::prelude::*;
use vstd::string::StringExecFns;

verus! {

/// The cache key under which the latest price of `instrument` is kept.
pub open spec fn price_key(instrument: Seq<char>) -> Seq<char> {
    instrument + "_price"@
}

/// The cache key under which the latest moving average of `instrument` is kept.
pub open spec fn average_key(instrument: Seq<char>) -> Seq<char> {
    instrument + "_sma"@
}

/// The topic on which every update is announced.
pub open spec fn updates_channel() -> Seq<char> {
    "updates"@
}

/// Everything that is sent out for one processed record. The two cache keys are overwritten with
/// `price` and with the value of `average`; the message `{symbol, price, sma, timestamp}` goes to
/// `channel`, with `average` as its `sma`. The two are independent: the failure of one does not
/// hold back the other, nor the records that follow.
#[derive(Debug, Clone, PartialEq, Eq)]
pub struct Publication {
    pub price_key: String,
    pub average_key: String,
    pub channel: String,
    pub symbol: String,
    pub price: u64,
    pub average: Average,
    pub timestamp: u64,
}

/// A publication as a mathematical value.
pub struct PublicationView {
    pub price_key: Seq<char>,
    pub average_key: Seq<char>,
    pub channel: Seq<char>,
    pub symbol: Seq<char>,
    pub price: u64,
    pub average: Seq<u64>,
    pub timestamp: u64,
}

impl View for Publication {
    type V = PublicationView;

    open spec fn view(&self) -> PublicationView {
        PublicationView {
            price_key: self.price_key@,
            average_key: self.average_key@,
            channel: self.channel@,
            symbol: self.symbol@,
            price: self.price,
            average: self.average@,
            timestamp: self.timestamp,
        }
    }
}

/// The publication for a record of `symbol` at `price` whose moving average is taken over
/// `average`, for an instrument with the given cache keys.
pub open spec fn publication_for(
    instrument: Seq<char>,
    symbol: Seq<char>,
    price: u64,
    average: Seq<u64>,
    timestamp: u64,
) -> PublicationView {
    PublicationView {
        price_key: price_key(instrument),
        average_key: average_key(instrument),
        channel: updates_channel(),
        symbol,
        price,
        average,
        timestamp,
    }
}

/// Builds publications for one instrument.
pub struct Publisher {
    instrument: String,
}

impl View for Publisher {
    type V = Seq<char>;

    /// The instrument whose cache keys are written.
    closed spec fn view(&self) -> Seq<char> {
        self.instrument@
    }
}

impl Publisher {
    /// A publisher that keeps the cache keys `<instrument>_price` and `<instrument>_sma`.
    pub fn new(instrument: String) -> (p: Publisher)
        ensures
            p@ == instrument@,
    {
        Publisher { instrument }
    }

    /// The publication for one record: the latest price and average for the cache, and the
    /// update for subscribers. Nothing of an earlier record enters it.
    pub fn publish(&self, symbol: &String, price: u64, average: Average, timestamp: u64) -> (out:
        Publication)
        ensures
            out@ == publication_for(self@, symbol@, price, average@, timestamp),
    {
        Publication {
            price_key: self.instrument.clone().concat("_price"),
            average_key: self.instrument.clone().concat("_sma"),
            channel: String::from_str("updates"),
            symbol: symbol.clone(),
            price,
            average,
            timestamp,
        }
    }
}

} // verus!
