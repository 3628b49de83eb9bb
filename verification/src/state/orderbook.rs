//! A snapshot of the top of the spot book.

use vstd::prelude::*;
use crate::amount::{Price, Quantity, MAX_AMOUNT};

verus! {

/// One price level of the book.
#[derive(Debug, Clone, Copy, PartialEq, Eq, Structural)]
pub struct OrderbookLevel {
    pub price: Price,
    pub qty: Quantity,
}

impl OrderbookLevel {
    pub fn new(price: Price, qty: Quantity) -> (level: Self)
        ensures
            level.price == price,
            level.qty == qty,
    {
        OrderbookLevel { price, qty }
    }
}

/// Every price is within the range amounts may take.
pub open spec fn prices_in_range(levels: Seq<OrderbookLevel>) -> bool {
    forall|i: int| 0 <= i < levels.len() ==> (#[trigger] levels[i]).price <= MAX_AMOUNT
}

/// Every price is positive.
pub open spec fn prices_positive(levels: Seq<OrderbookLevel>) -> bool {
    forall|i: int| 0 <= i < levels.len() ==> (#[trigger] levels[i]).price > 0
}

/// Prices fall strictly from one level to the next.
pub open spec fn strictly_descending(levels: Seq<OrderbookLevel>) -> bool {
    forall|i: int, j: int| 0 <= i < j < levels.len() ==> levels[i].price > levels[j].price
}

/// Prices rise strictly from one level to the next.
pub open spec fn strictly_ascending(levels: Seq<OrderbookLevel>) -> bool {
    forall|i: int, j: int| 0 <= i < j < levels.len() ==> levels[i].price < levels[j].price
}

/// No two levels carry the same price.
pub open spec fn distinct_prices(levels: Seq<OrderbookLevel>) -> bool {
    forall|i: int, j: int|
        0 <= i < levels.len() && 0 <= j < levels.len() && i != j ==> levels[i].price
            != levels[j].price
}

/// Bids best first, asks best first. Replaced as a whole on every refresh.
#[derive(Debug, Clone)]
pub struct OrderbookState {
    pub bids: Vec<OrderbookLevel>,
    pub asks: Vec<OrderbookLevel>,
}

impl OrderbookState {
    /// Bids descend, asks ascend, and all prices are positive and in range.
    pub open spec fn wf(&self) -> bool {
        &&& prices_in_range(self.bids@)
        &&& prices_in_range(self.asks@)
        &&& prices_positive(self.bids@)
        &&& prices_positive(self.asks@)
        &&& strictly_descending(self.bids@)
        &&& strictly_ascending(self.asks@)
    }

    /// The empty book.
    pub fn new() -> (book: Self)
        ensures
            book.bids@.len() == 0,
            book.asks@.len() == 0,
            book.wf(),
    {
        OrderbookState { bids: Vec::new(), asks: Vec::new() }
    }

    /// Runtime test of [`Self::wf`].
    pub fn is_wf(&self) -> (ok: bool)
        ensures
            ok == self.wf(),
    {
        side_is_wf(&self.bids, true) && side_is_wf(&self.asks, false)
    }
}

/// Tests whether every price of `levels` is within the range amounts may
/// take.
pub fn levels_in_range(levels: &Vec<OrderbookLevel>) -> (ok: bool)
    ensures
        ok == prices_in_range(levels@),
{
    let mut i: usize = 0;
    while i < levels.len()
        invariant
            i <= levels@.len(),
            forall|k: int| 0 <= k < i ==> (#[trigger] levels@[k]).price <= MAX_AMOUNT,
        decreases levels@.len() - i,
    {
        if levels[i].price > MAX_AMOUNT {
            return false;
        }
        i += 1;
    }
    true
}

/// Tests one side of the book: prices positive, in range and strictly
/// ordered, falling when `descending`, rising otherwise.
pub fn side_is_wf(levels: &Vec<OrderbookLevel>, descending: bool) -> (ok: bool)
    ensures
        ok == (prices_in_range(levels@) && prices_positive(levels@) && if descending {
            strictly_descending(levels@)
        } else {
            strictly_ascending(levels@)
        }),
{
    let mut i: usize = 0;
    while i < levels.len()
        invariant
            i <= levels@.len(),
            prices_in_range(levels@.take(i as int)),
            prices_positive(levels@.take(i as int)),
            descending ==> strictly_descending(levels@.take(i as int)),
            !descending ==> strictly_ascending(levels@.take(i as int)),
        decreases levels@.len() - i,
    {
        let price = levels[i].price;
        if price == 0 || price > MAX_AMOUNT {
            assert(levels@[i as int].price == price);
            return false;
        }
        if i > 0 {
            let before = levels[i - 1].price;
            if (descending && before <= price) || (!descending && before >= price) {
                return false;
            }
        }
        proof {
            let next = levels@.take(i as int + 1);
            let cur = levels@.take(i as int);
            assert forall|k: int| 0 <= k < next.len() implies 0 < (#[trigger] next[k]).price
                <= MAX_AMOUNT by {
                if k < i {
                    assert(next[k] == cur[k]);
                    assert(cur[k].price <= MAX_AMOUNT && cur[k].price > 0);
                }
            }
            if descending {
                assert forall|a: int, b: int| 0 <= a < b < next.len() implies next[a].price
                    > next[b].price by {
                    if b < i {
                        assert(next[a] == cur[a] && next[b] == cur[b]);
                    } else if a < i - 1 {
                        assert(cur[a].price > cur[i - 1].price);
                    }
                }
            } else {
                assert forall|a: int, b: int| 0 <= a < b < next.len() implies next[a].price
                    < next[b].price by {
                    if b < i {
                        assert(next[a] == cur[a] && next[b] == cur[b]);
                    } else if a < i - 1 {
                        assert(cur[a].price < cur[i - 1].price);
                    }
                }
            }
        }
        i += 1;
    }
    assert(levels@.take(i as int) =~= levels@);
    true
}

} // verus!
