//! The bounded window of recent prices behind the moving average.

use std::collections::VecDeque;
use vstd::prelude::*;

verus! {

/// The last `n` items of `s`, in order; all of `s` where it has no more than `n`.
pub open spec fn last_n<T>(s: Seq<T>, n: nat) -> Seq<T> {
    if s.len() <= n {
        s
    } else {
        s.subrange(s.len() - n, s.len() as int)
    }
}

/// What a window of capacity `capacity` holds after `price` is observed on top of `held`.
pub open spec fn slide(held: Seq<u64>, capacity: nat, price: u64) -> Seq<u64> {
    last_n(held.push(price), capacity)
}

/// What a window of capacity `capacity` holds after it has observed `prices`, in order, starting
/// empty.
pub open spec fn observed(capacity: nat, prices: Seq<u64>) -> Seq<u64>
    decreases prices.len(),
{
    if prices.len() == 0 {
        Seq::empty()
    } else {
        slide(observed(capacity, prices.drop_last()), capacity, prices.last())
    }
}

/// A simple moving average, unevaluated: the bit patterns of the prices it is taken over, oldest
/// first. Its value is the sum of the terms, added in this order, divided by their number; with no
/// terms it has no value.
#[derive(Debug, Clone, PartialEq, Eq)]
pub struct Average {
    pub terms: Vec<u64>,
}

impl View for Average {
    type V = Seq<u64>;

    open spec fn view(&self) -> Seq<u64> {
        self.terms@
    }
}

impl Average {
    /// The number of prices the average is taken over: its denominator.
    pub fn count(&self) -> (n: usize)
        ensures
            n == self@.len(),
    {
        self.terms.len()
    }
}

/// The most recent prices of one symbol, oldest first, never more than the capacity.
pub struct WindowState {
    capacity: usize,
    prices: VecDeque<u64>,
}

impl View for WindowState {
    type V = Seq<u64>;

    closed spec fn view(&self) -> Seq<u64> {
        self.prices@
    }
}

impl WindowState {
    /// The window holds no more prices than its capacity.
    pub closed spec fn wf(&self) -> bool {
        self.prices@.len() <= self.capacity
    }

    /// The number of prices the window keeps.
    pub closed spec fn limit(&self) -> nat {
        self.capacity as nat
    }

    /// An empty window that keeps the last `capacity` prices.
    pub fn new(capacity: usize) -> (w: WindowState)
        ensures
            w.wf(),
            w@ == Seq::<u64>::empty(),
            w.limit() == capacity,
    {
        WindowState { capacity, prices: VecDeque::new() }
    }

    pub fn capacity(&self) -> (n: usize)
        ensures
            n == self.limit(),
    {
        self.capacity
    }

    pub fn len(&self) -> (n: usize)
        requires
            self.wf(),
        ensures
            n == self@.len(),
            n <= self.limit(),
    {
        self.prices.len()
    }

    /// The prices held, oldest first.
    pub fn prices(&self) -> (held: Vec<u64>)
        ensures
            held@ == self@,
    {
        let mut held: Vec<u64> = Vec::new();
        let n: usize = self.prices.len();
        let mut i: usize = 0;
        while i < n
            invariant
                n == self.prices@.len(),
                i <= n,
                held@ == self.prices@.subrange(0, i as int),
            decreases n - i,
        {
            held.push(self.prices[i]);
            i += 1;
        }
        held
    }

    /// Observes `price`: appends it, and drops the oldest price if the window was full. Returns
    /// the average over what the window now holds, so that during warm-up the denominator is the
    /// number of prices seen and not the capacity.
    pub fn update(&mut self, price: u64) -> (average: Average)
        requires
            old(self).wf(),
        ensures
            final(self).wf(),
            final(self).limit() == old(self).limit(),
            final(self)@ == slide(old(self)@, old(self).limit(), price),
            average@ == final(self)@,
    {
        if self.capacity > 0 {
            if self.prices.len() == self.capacity {
                self.prices.pop_front();
            }
            self.prices.push_back(price);
        }
        Average { terms: self.prices() }
    }
}

/// Sliding is the same whether the older prices were cut down to the capacity first or not.
pub proof fn lemma_slide_last_n(prices: Seq<u64>, capacity: nat, price: u64)
    ensures
        slide(last_n(prices, capacity), capacity, price) == last_n(prices.push(price), capacity),
{
}

/// A window that starts empty and observes `prices` in order holds exactly the last `capacity` of
/// them, or all of them while there are no more than `capacity`: the moving average after `k`
/// updates is taken over the last `min(k, capacity)` prices and over nothing else.
pub proof fn lemma_window_holds_most_recent(capacity: nat, prices: Seq<u64>)
    ensures
        observed(capacity, prices) == last_n(prices, capacity),
        observed(capacity, prices).len() == if prices.len() <= capacity {
            prices.len()
        } else {
            capacity
        },
    decreases prices.len(),
{
    if prices.len() > 0 {
        lemma_window_holds_most_recent(capacity, prices.drop_last());
        lemma_slide_last_n(prices.drop_last(), capacity, prices.last());
        assert(prices.drop_last().push(prices.last()) == prices);
    }
}

} // verus!
