//! Searching and striking levels of one side of the book.

use vstd::prelude::*;
use crate::amount::{Price, MAX_AMOUNT};
use crate::state::orderbook::{
    distinct_prices,
    prices_in_range,
    strictly_descending,
    OrderbookLevel,
};

verus! {

/// Some level carries `price`.
pub open spec fn has_level_at(levels: Seq<OrderbookLevel>, price: Price) -> bool {
    exists|i: int| 0 <= i < levels.len() && levels[i].price == price
}

/// `i` is the first level that carries `price`.
pub open spec fn is_first_level_at(levels: Seq<OrderbookLevel>, price: Price, i: int) -> bool {
    &&& 0 <= i < levels.len()
    &&& levels[i].price == price
    &&& forall|k: int| 0 <= k < i ==> levels[k].price != price
}

/// Index of the first level that carries `price`.
pub open spec fn level_index(levels: Seq<OrderbookLevel>, price: Price) -> Option<int>
    decreases levels.len(),
{
    if levels.len() == 0 {
        None
    } else {
        match level_index(levels.drop_last(), price) {
            Some(i) => Some(i),
            None => if levels.last().price == price {
                Some(levels.len() - 1)
            } else {
                None
            },
        }
    }
}

/// `i` is the lowest-priced level; among equals, the last.
pub open spec fn is_lowest_level(levels: Seq<OrderbookLevel>, i: int) -> bool {
    &&& 0 <= i < levels.len()
    &&& forall|k: int| 0 <= k < levels.len() ==> levels[i].price <= levels[k].price
    &&& forall|k: int| i < k < levels.len() ==> levels[i].price < levels[k].price
}

/// Index of the lowest-priced level; among equals, the last. Zero for the
/// empty sequence.
pub open spec fn lowest_index(levels: Seq<OrderbookLevel>) -> int
    decreases levels.len(),
{
    if levels.len() <= 1 {
        0
    } else {
        let before = lowest_index(levels.drop_last());
        if levels.last().price <= levels[before].price {
            levels.len() - 1
        } else {
            before
        }
    }
}

/// The levels once the level owed to a slot that bids at `price` is struck
/// out: the first level at that price or, where there is none, the
/// lowest-priced level.
pub open spec fn strike_level(levels: Seq<OrderbookLevel>, price: Price) -> Seq<OrderbookLevel> {
    match level_index(levels, price) {
        Some(i) => levels.remove(i),
        None => if levels.len() > 0 {
            levels.remove(lowest_index(levels))
        } else {
            levels
        },
    }
}

/// [`level_index`] finds the first level at the price, and finds none only
/// where there is none.
pub proof fn lemma_level_index(levels: Seq<OrderbookLevel>, price: Price)
    ensures
        match level_index(levels, price) {
            Some(i) => is_first_level_at(levels, price, i),
            None => !has_level_at(levels, price),
        },
    decreases levels.len(),
{
    if levels.len() > 0 {
        let front = levels.drop_last();
        lemma_level_index(front, price);
        match level_index(front, price) {
            Some(i) => {
                assert(levels[i] == front[i]);
                assert forall|k: int| 0 <= k < i implies levels[k].price != price by {
                    assert(levels[k] == front[k]);
                }
            },
            None => {
                assert forall|k: int| 0 <= k < levels.len() - 1 implies levels[k].price
                    != price by {
                    assert(levels[k] == front[k]);
                }
            },
        }
    }
}

/// [`lowest_index`] is the lowest-priced level of a non-empty sequence.
pub proof fn lemma_lowest_index(levels: Seq<OrderbookLevel>)
    requires
        levels.len() > 0,
    ensures
        is_lowest_level(levels, lowest_index(levels)),
    decreases levels.len(),
{
    if levels.len() > 1 {
        let front = levels.drop_last();
        lemma_lowest_index(front);
        let before = lowest_index(front);
        assert(levels[before] == front[before]);
        assert forall|k: int| 0 <= k < levels.len() - 1 implies front[before].price
            <= levels[k].price by {
            assert(levels[k] == front[k]);
        }
        assert forall|k: int| before < k < levels.len() - 1 implies front[before].price
            < levels[k].price by {
            assert(levels[k] == front[k]);
        }
    }
}

/// In a descending side the lowest-priced level is the last one.
pub proof fn lemma_lowest_is_last(levels: Seq<OrderbookLevel>)
    requires
        levels.len() > 0,
        strictly_descending(levels),
    ensures
        lowest_index(levels) == levels.len() - 1,
{
    lemma_lowest_index(levels);
}

/// Striking a level takes exactly one level away, as long as there is one.
pub proof fn lemma_strike_len(levels: Seq<OrderbookLevel>, price: Price)
    ensures
        levels.len() > 0 ==> strike_level(levels, price).len() == levels.len() - 1,
        levels.len() == 0 ==> strike_level(levels, price).len() == 0,
{
    lemma_level_index(levels, price);
    if levels.len() > 0 {
        lemma_lowest_index(levels);
    }
}

/// Striking a level leaves no level at `price`, given that no two levels
/// shared a price; the levels that stay keep their order, and prices stay
/// distinct.
pub proof fn lemma_strike_level(levels: Seq<OrderbookLevel>, price: Price)
    requires
        distinct_prices(levels),
    ensures
        !has_level_at(strike_level(levels, price), price),
        distinct_prices(strike_level(levels, price)),
        levels.len() > 0 ==> strike_level(levels, price).len() == levels.len() - 1,
        levels.len() == 0 ==> strike_level(levels, price).len() == 0,
        forall|other: Price|
            !has_level_at(levels, other) ==> !has_level_at(strike_level(levels, price), other),
{
    lemma_level_index(levels, price);
    let struck = strike_level(levels, price);
    if levels.len() > 0 {
        let i = match level_index(levels, price) {
            Some(i) => i,
            None => lowest_index(levels),
        };
        lemma_lowest_index(levels);
        assert(struck == levels.remove(i));
        assert forall|k: int| 0 <= k < struck.len() implies #[trigger] struck[k] == levels[if k
            < i {
            k
        } else {
            k + 1
        }] by {}
        assert forall|k: int| 0 <= k < struck.len() implies struck[k].price != price by {
            let src = if k < i {
                k
            } else {
                k + 1
            };
            assert(struck[k] == levels[src]);
        }
        assert forall|a: int, b: int|
            0 <= a < struck.len() && 0 <= b < struck.len() && a != b implies struck[a].price
            != struck[b].price by {
            let sa = if a < i {
                a
            } else {
                a + 1
            };
            let sb = if b < i {
                b
            } else {
                b + 1
            };
            assert(struck[a] == levels[sa] && struck[b] == levels[sb]);
        }
        assert forall|other: Price| !has_level_at(levels, other) implies !has_level_at(
            struck,
            other,
        ) by {
            assert forall|k: int| 0 <= k < struck.len() implies struck[k].price != other by {
                let src = if k < i {
                    k
                } else {
                    k + 1
                };
                assert(struck[k] == levels[src]);
            }
        }
    }
}

/// Striking a level leaves every price within range.
pub proof fn lemma_strike_in_range(levels: Seq<OrderbookLevel>, price: Price)
    requires
        prices_in_range(levels),
    ensures
        prices_in_range(strike_level(levels, price)),
{
    lemma_level_index(levels, price);
    if levels.len() > 0 {
        lemma_lowest_index(levels);
        let i = match level_index(levels, price) {
            Some(i) => i,
            None => lowest_index(levels),
        };
        let struck = levels.remove(i);
        assert forall|k: int| 0 <= k < struck.len() implies (#[trigger] struck[k]).price
            <= MAX_AMOUNT by {
            if k < i {
                assert(struck[k] == levels[k]);
            } else {
                assert(struck[k] == levels[k + 1]);
            }
        }
    }
}

/// Index of the first level at `price`, if there is one.
pub fn find_level(levels: &Vec<OrderbookLevel>, price: Price) -> (found: Option<usize>)
    ensures
        match found {
            Some(i) => i < levels@.len() && level_index(levels@, price) == Some(i as int),
            None => level_index(levels@, price) is None,
        },
{
    let mut i: usize = 0;
    while i < levels.len()
        invariant
            i <= levels@.len(),
            level_index(levels@.take(i as int), price) is None,
        decreases levels@.len() - i,
    {
        if levels[i].price == price {
            proof {
                lemma_level_index(levels@, price);
                lemma_level_index(levels@.take(i as int), price);
                let first = level_index(levels@, price);
                assert(has_level_at(levels@, price));
                assert(first is Some);
                if first->0 < i {
                    assert(levels@.take(i as int)[first->0] == levels@[first->0]);
                    assert(has_level_at(levels@.take(i as int), price));
                }
            }
            return Some(i);
        }
        proof {
            assert(levels@.take(i as int + 1).drop_last() =~= levels@.take(i as int));
        }
        i += 1;
    }
    assert(levels@.take(i as int) =~= levels@);
    None
}

/// Whether some level carries `price`.
pub fn is_in_levels(levels: &[OrderbookLevel], price: Price) -> (found: bool)
    ensures
        found == has_level_at(levels@, price),
{
    let mut i: usize = 0;
    while i < levels.len()
        invariant
            i <= levels@.len(),
            forall|k: int| 0 <= k < i ==> levels@[k].price != price,
        decreases levels@.len() - i,
    {
        if levels[i].price == price {
            return true;
        }
        i += 1;
    }
    false
}

/// Index of the lowest-priced level; among equals, the last.
pub fn lowest_level(levels: &Vec<OrderbookLevel>) -> (lowest: usize)
    requires
        levels@.len() > 0,
    ensures
        lowest == lowest_index(levels@),
        lowest < levels@.len(),
{
    let mut lowest: usize = 0;
    let mut i: usize = 1;
    assert(levels@.take(1).len() == 1);
    while i < levels.len()
        invariant
            1 <= i <= levels@.len(),
            lowest == lowest_index(levels@.take(i as int)),
            lowest < i,
        decreases levels@.len() - i,
    {
        proof {
            assert(levels@.take(i as int + 1).drop_last() =~= levels@.take(i as int));
            assert(levels@.take(i as int + 1)[lowest as int] == levels@[lowest as int]);
        }
        if levels[i].price <= levels[lowest].price {
            lowest = i;
        }
        i += 1;
    }
    assert(levels@.take(i as int) =~= levels@);
    lowest
}

/// Strikes out the level owed to a slot that bids at `price`: the first
/// level at that price or, where there is none, the lowest-priced level.
pub fn strike(levels: &mut Vec<OrderbookLevel>, price: Price)
    ensures
        final(levels)@ == strike_level(old(levels)@, price),
{
    match find_level(levels, price) {
        Some(i) => {
            levels.remove(i);
        },
        None => {
            if levels.len() > 0 {
                let lowest = lowest_level(levels);
                levels.remove(lowest);
            }
        },
    }
}

} // verus!
