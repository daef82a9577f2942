//! One window per symbol, made when the symbol is first seen.

use crate::window::{slide, Average, WindowState};
use vstd::prelude::*;

verus! {

/// The prices held for `symbol` in `windows`: none where the symbol was never seen.
pub open spec fn held_for(windows: Map<Seq<char>, Seq<u64>>, symbol: Seq<char>) -> Seq<u64> {
    if windows.dom().contains(symbol) {
        windows[symbol]
    } else {
        Seq::empty()
    }
}

/// The windows after `price` is observed for `symbol`: that symbol's window slides, the others
/// stay as they are.
pub open spec fn observe(
    windows: Map<Seq<char>, Seq<u64>>,
    capacity: nat,
    symbol: Seq<char>,
    price: u64,
) -> Map<Seq<char>, Seq<u64>> {
    windows.insert(symbol, slide(held_for(windows, symbol), capacity, price))
}

struct SymbolWindow {
    symbol: String,
    window: WindowState,
}

/// The window aggregator: a moving average per symbol over the last prices seen for it.
pub struct WindowAggregator {
    capacity: usize,
    entries: Vec<SymbolWindow>,
}

spec fn windows_of(entries: Seq<SymbolWindow>) -> Map<Seq<char>, Seq<u64>>
    decreases entries.len(),
{
    if entries.len() == 0 {
        Map::empty()
    } else {
        windows_of(entries.drop_last()).insert(entries.last().symbol@, entries.last().window@)
    }
}

spec fn distinct_symbols(entries: Seq<SymbolWindow>) -> bool {
    forall|i: int, j: int|
        0 <= i < j < entries.len() ==> (#[trigger] entries[i]).symbol@ != (
        #[trigger] entries[j]).symbol@
}

proof fn lemma_windows_of_absent(entries: Seq<SymbolWindow>, symbol: Seq<char>)
    requires
        forall|i: int| 0 <= i < entries.len() ==> (#[trigger] entries[i]).symbol@ != symbol,
    ensures
        !windows_of(entries).dom().contains(symbol),
    decreases entries.len(),
{
    if entries.len() > 0 {
        lemma_windows_of_absent(entries.drop_last(), symbol);
    }
}

proof fn lemma_windows_of_present(entries: Seq<SymbolWindow>, at: int)
    requires
        distinct_symbols(entries),
        0 <= at < entries.len(),
    ensures
        windows_of(entries).dom().contains(entries[at].symbol@),
        windows_of(entries)[entries[at].symbol@] == entries[at].window@,
    decreases entries.len(),
{
    if at < entries.len() - 1 {
        assert(distinct_symbols(entries.drop_last())) by {
            assert forall|i: int, j: int| 0 <= i < j < entries.drop_last().len() implies (
            #[trigger] entries.drop_last()[i]).symbol@ != (
            #[trigger] entries.drop_last()[j]).symbol@ by {
                assert(entries.drop_last()[i] == entries[i]);
                assert(entries.drop_last()[j] == entries[j]);
            }
        }
        lemma_windows_of_present(entries.drop_last(), at);
        assert(entries.drop_last()[at] == entries[at]);
        assert(entries[at].symbol@ != entries[entries.len() - 1].symbol@);
    }
}

proof fn lemma_windows_of_replace(entries: Seq<SymbolWindow>, at: int, entry: SymbolWindow)
    requires
        0 <= at < entries.len(),
        entry.symbol@ == entries[at].symbol@,
        distinct_symbols(entries),
    ensures
        distinct_symbols(entries.update(at, entry)),
        windows_of(entries.update(at, entry)) == windows_of(entries).insert(
            entry.symbol@,
            entry.window@,
        ),
    decreases entries.len(),
{
    let after = entries.update(at, entry);
    assert(distinct_symbols(after)) by {
        assert forall|i: int, j: int| 0 <= i < j < after.len() implies (#[trigger] after[i]).symbol@
            != (#[trigger] after[j]).symbol@ by {
            assert(after[i].symbol@ == entries[i].symbol@);
            assert(after[j].symbol@ == entries[j].symbol@);
        }
    }
    let last = entries.len() - 1;
    if at == last {
        assert(after.drop_last() == entries.drop_last());
        assert(windows_of(after) == windows_of(entries).insert(entry.symbol@, entry.window@));
    } else {
        assert(distinct_symbols(entries.drop_last())) by {
            assert forall|i: int, j: int| 0 <= i < j < entries.drop_last().len() implies (
            #[trigger] entries.drop_last()[i]).symbol@ != (
            #[trigger] entries.drop_last()[j]).symbol@ by {
                assert(entries.drop_last()[i] == entries[i]);
                assert(entries.drop_last()[j] == entries[j]);
            }
        }
        lemma_windows_of_replace(entries.drop_last(), at, entry);
        assert(after.drop_last() == entries.drop_last().update(at, entry));
        assert(after.last() == entries.last());
        assert(entries[at].symbol@ != entries[last].symbol@);
        assert(windows_of(after) == windows_of(entries).insert(entry.symbol@, entry.window@));
    }
}

impl View for WindowAggregator {
    type V = Map<Seq<char>, Seq<u64>>;

    closed spec fn view(&self) -> Map<Seq<char>, Seq<u64>> {
        windows_of(self.entries@)
    }
}

impl WindowAggregator {
    /// No symbol has two windows, and every window has the aggregator's capacity.
    pub closed spec fn wf(&self) -> bool {
        &&& distinct_symbols(self.entries@)
        &&& forall|i: int|
            0 <= i < self.entries@.len() ==> {
                &&& (#[trigger] self.entries@[i]).window.wf()
                &&& self.entries@[i].window.limit() == self.capacity
            }
    }

    /// The number of prices each window keeps.
    pub closed spec fn limit(&self) -> nat {
        self.capacity as nat
    }

    /// An aggregator that has seen no symbol yet.
    pub fn new(capacity: usize) -> (a: WindowAggregator)
        ensures
            a.wf(),
            a.limit() == capacity,
            a@ == Map::<Seq<char>, Seq<u64>>::empty(),
    {
        WindowAggregator { capacity, entries: Vec::new() }
    }

    pub fn capacity(&self) -> (n: usize)
        ensures
            n == self.limit(),
    {
        self.capacity
    }

    fn position(&self, symbol: &String) -> (found: Option<usize>)
        ensures
            match found {
                Some(at) => at < self.entries@.len() && self.entries@[at as int].symbol@
                    == symbol@,
                None => forall|i: int|
                    0 <= i < self.entries@.len() ==> (#[trigger] self.entries@[i]).symbol@
                        != symbol@,
            },
    {
        let mut i: usize = 0;
        while i < self.entries.len()
            invariant
                i <= self.entries@.len(),
                forall|k: int| 0 <= k < i ==> (#[trigger] self.entries@[k]).symbol@ != symbol@,
            decreases self.entries@.len() - i,
        {
            if self.entries[i].symbol == *symbol {
                return Some(i);
            }
            i += 1;
        }
        None
    }

    /// The prices held for `symbol`, oldest first: none if the symbol was never seen.
    pub fn prices(&self, symbol: &String) -> (held: Vec<u64>)
        requires
            self.wf(),
        ensures
            held@ == held_for(self@, symbol@),
    {
        match self.position(symbol) {
            Some(at) => {
                proof {
                    lemma_windows_of_present(self.entries@, at as int);
                }
                self.entries[at].window.prices()
            },
            None => {
                proof {
                    lemma_windows_of_absent(self.entries@, symbol@);
                }
                Vec::new()
            },
        }
    }

    /// Observes `price` for `symbol` and returns the symbol's moving average. A symbol seen for
    /// the first time starts from an empty window. Only that symbol's window changes.
    pub fn update(&mut self, symbol: &String, price: u64) -> (average: Average)
        requires
            old(self).wf(),
        ensures
            final(self).wf(),
            final(self).limit() == old(self).limit(),
            final(self)@ == observe(old(self)@, old(self).limit(), symbol@, price),
            average@ == slide(held_for(old(self)@, symbol@), old(self).limit(), price),
    {
        match self.position(symbol) {
            Some(at) => {
                let ghost before = self.entries@;
                let average = self.entries[at].window.update(price);
                proof {
                    lemma_windows_of_present(before, at as int);
                    lemma_windows_of_replace(before, at as int, self.entries@[at as int]);
                    assert(self.entries@ == before.update(at as int, self.entries@[at as int]));
                }
                average
            },
            None => {
                proof {
                    lemma_windows_of_absent(self.entries@, symbol@);
                }
                let mut window = WindowState::new(self.capacity);
                let average = window.update(price);
                let ghost before = self.entries@;
                self.entries.push(SymbolWindow { symbol: symbol.clone(), window });
                assert(self.entries@.drop_last() == before);
                average
            },
        }
    }
}

} // verus!
