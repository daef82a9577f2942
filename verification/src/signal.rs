//! The gateway's recommendation: what to make of a price against its moving average.
//!
//! Comparing the two numbers is floating-point work and is done by the
//! caller. What follows from the comparison is a policy, and the policy says
//! outright what happens when the price equals the average and when the two
//! cannot be ordered at all.

use vstd::prelude::*;
use vstd::string::StringExecFns;

verus! {

/// How the latest price stands to its moving average.
#[derive(Debug, Clone, Copy, PartialEq, Eq)]
pub enum Standing {
    Above,
    Equal,
    Below,
    /// One of the two is not a number.
    Unordered,
}

/// The recommendation.
#[derive(Debug, Clone, Copy, PartialEq, Eq)]
pub enum Signal {
    Purchase,
    Sell,
}

/// What to recommend where the price is neither above nor below the average.
#[derive(Debug, Clone, Copy, PartialEq, Eq)]
pub struct SignalPolicy {
    pub at_equality: Signal,
    pub when_unordered: Signal,
}

/// The recommendation under `policy` for a price that stands to its average as `standing` says.
pub open spec fn recommended(policy: SignalPolicy, standing: Standing) -> Signal {
    match standing {
        Standing::Above => Signal::Purchase,
        Standing::Below => Signal::Sell,
        Standing::Equal => policy.at_equality,
        Standing::Unordered => policy.when_unordered,
    }
}

/// The text of a recommendation.
pub open spec fn label_of(signal: Signal) -> Seq<char> {
    match signal {
        Signal::Purchase => "PURCHASE"@,
        Signal::Sell => "SELL"@,
    }
}

impl SignalPolicy {
    /// The policy that recommends a purchase only for a price above its average: a sale at
    /// equality, and a sale where the two cannot be ordered.
    pub fn strict() -> (policy: SignalPolicy)
        ensures
            policy == (SignalPolicy { at_equality: Signal::Sell, when_unordered: Signal::Sell }),
    {
        SignalPolicy { at_equality: Signal::Sell, when_unordered: Signal::Sell }
    }

    /// The recommendation for a price that stands to its average as `standing` says.
    pub fn recommend(&self, standing: Standing) -> (signal: Signal)
        ensures
            signal == recommended(*self, standing),
    {
        match standing {
            Standing::Above => Signal::Purchase,
            Standing::Below => Signal::Sell,
            Standing::Equal => self.at_equality,
            Standing::Unordered => self.when_unordered,
        }
    }
}

impl Signal {
    /// The text that the gateway answers with.
    pub fn label(&self) -> (text: String)
        ensures
            text@ == label_of(*self),
    {
        match self {
            Signal::Purchase => String::from_str("PURCHASE"),
            Signal::Sell => String::from_str("SELL"),
        }
    }
}

} // verus!
