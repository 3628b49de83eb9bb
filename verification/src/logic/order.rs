//! Fills: an execution is mapped to a slot by its price and added to that
//! slot's counters.

use vstd::prelude::*;
use crate::amount::{Price, Quantity};
use crate::logic::steps::{after_step, TableStep};
use crate::state::orders::{OrdersState, SlotView};

verus! {

/// `i` is the first slot whose BUY price is `price`.
pub open spec fn is_first_with_bid(slots: Seq<SlotView>, price: Price, i: int) -> bool {
    &&& 0 <= i < slots.len()
    &&& slots[i].spot.bid_price == Some(price)
    &&& forall|k: int| 0 <= k < i ==> slots[k].spot.bid_price != Some(price)
}

/// `i` is the first slot whose SELL price is `price`.
pub open spec fn is_first_with_ask(slots: Seq<SlotView>, price: Price, i: int) -> bool {
    &&& 0 <= i < slots.len()
    &&& slots[i].spot.ask_price == Some(price)
    &&& forall|k: int| 0 <= k < i ==> slots[k].spot.ask_price != Some(price)
}

/// No slot has `price` as its BUY price.
pub open spec fn no_slot_with_bid(slots: Seq<SlotView>, price: Price) -> bool {
    forall|k: int| 0 <= k < slots.len() ==> slots[k].spot.bid_price != Some(price)
}

/// No slot has `price` as its SELL price.
pub open spec fn no_slot_with_ask(slots: Seq<SlotView>, price: Price) -> bool {
    forall|k: int| 0 <= k < slots.len() ==> slots[k].spot.ask_price != Some(price)
}

/// What a BUY fill leads to.
#[derive(Debug, Clone, Copy, PartialEq, Eq, Structural)]
pub enum BuyFill {
    /// No slot bids at the fill's price: the fill is dropped.
    Unmatched,
    /// The fill was added to slot `index`, which has no SELL price: nothing
    /// is placed.
    Recorded { index: usize },
    /// The fill was added to slot `index`; a SELL LIMIT GTC of `quantity` at
    /// `price` is to be placed for it.
    PlaceSell { index: usize, price: Price, quantity: Quantity },
}

/// What booking a BUY execution of `quantity` at `price` makes of the table
/// `before`, and what it answers: the first slot that bids at `price` has
/// the quantity added, and the answer tells whether a paired SELL is due.
pub open spec fn buy_fill_books(
    before: Seq<SlotView>,
    after: Seq<SlotView>,
    price: Price,
    quantity: Quantity,
    outcome: BuyFill,
) -> bool {
    match outcome {
        BuyFill::Unmatched => no_slot_with_bid(before, price) && after == before,
        BuyFill::Recorded { index } => {
            &&& is_first_with_bid(before, price, index as int)
            &&& before[index as int].spot.ask_price is None
            &&& after == after_step(before, TableStep::BuyFilled { index, quantity })
        },
        BuyFill::PlaceSell { index, price: ask, quantity: sell_quantity } => {
            &&& is_first_with_bid(before, price, index as int)
            &&& before[index as int].spot.ask_price == Some(ask)
            &&& sell_quantity == quantity
            &&& after == after_step(before, TableStep::BuyFilled { index, quantity })
        },
    }
}

/// What booking a SELL execution of `quantity` at `price` makes of the
/// table `before`, and what it answers: the first slot that sells at
/// `price` has the quantity added and is named.
pub open spec fn sell_fill_books(
    before: Seq<SlotView>,
    after: Seq<SlotView>,
    price: Price,
    quantity: Quantity,
    matched: Option<usize>,
) -> bool {
    match matched {
        None => no_slot_with_ask(before, price) && after == before,
        Some(index) => {
            &&& is_first_with_ask(before, price, index as int)
            &&& after == after_step(before, TableStep::SellFilled { index, quantity })
        },
    }
}

/// Index of the first slot that bids at `price`, if there is one.
pub fn find_slot_by_bid(orders: &OrdersState, price: Price) -> (found: Option<usize>)
    ensures
        match found {
            Some(i) => is_first_with_bid(orders@, price, i as int),
            None => no_slot_with_bid(orders@, price),
        },
{
    let mut i: usize = 0;
    while i < orders.orders.len()
        invariant
            i <= orders.orders@.len(),
            orders@.len() == orders.orders@.len(),
            forall|k: int| 0 <= k < i ==> orders@[k].spot.bid_price != Some(price),
        decreases orders.orders@.len() - i,
    {
        match orders.orders[i].spot.bid_price {
            Some(bid) => {
                if bid == price {
                    assert(orders@[i as int].spot.bid_price == Some(price));
                    return Some(i);
                }
            },
            None => {},
        }
        assert(orders@[i as int].spot.bid_price != Some(price));
        i += 1;
    }
    None
}

/// Index of the first slot that sells at `price`, if there is one.
pub fn find_slot_by_ask(orders: &OrdersState, price: Price) -> (found: Option<usize>)
    ensures
        match found {
            Some(i) => is_first_with_ask(orders@, price, i as int),
            None => no_slot_with_ask(orders@, price),
        },
{
    let mut i: usize = 0;
    while i < orders.orders.len()
        invariant
            i <= orders.orders@.len(),
            orders@.len() == orders.orders@.len(),
            forall|k: int| 0 <= k < i ==> orders@[k].spot.ask_price != Some(price),
        decreases orders.orders@.len() - i,
    {
        match orders.orders[i].spot.ask_price {
            Some(ask) => {
                if ask == price {
                    assert(orders@[i as int].spot.ask_price == Some(price));
                    return Some(i);
                }
            },
            None => {},
        }
        assert(orders@[i as int].spot.ask_price != Some(price));
        i += 1;
    }
    None
}

/// Books a BUY execution of `quantity` at `price`.
///
/// The first slot that bids at `price` has the quantity added to its
/// `filled_buy`; every other slot is left as it was. When that slot has a
/// SELL price, the result asks for the paired SELL of the same quantity.
/// Without such a slot nothing changes.
pub fn add_filled_buy_for_bid_price(
    orders: &mut OrdersState,
    price: Price,
    quantity: Quantity,
) -> (outcome: BuyFill)
    ensures
        buy_fill_books(old(orders)@, final(orders)@, price, quantity, outcome),
        old(orders).wf() ==> final(orders).wf(),
        old(orders).distinct_bids() ==> final(orders).distinct_bids(),
{
    match find_slot_by_bid(orders, price) {
        None => BuyFill::Unmatched,
        Some(index) => {
            let slot = &mut orders.orders[index];
            slot.spot.filled_buy = slot.spot.filled_buy.saturating_add(quantity);
            let ask_price = slot.spot.ask_price;
            proof {
                assert(orders@ =~= after_step(
                    old(orders)@,
                    TableStep::BuyFilled { index, quantity },
                ));
            }
            match ask_price {
                None => BuyFill::Recorded { index },
                Some(ask) => BuyFill::PlaceSell { index, price: ask, quantity },
            }
        },
    }
}

/// Books a SELL execution of `quantity` at `price`.
///
/// The first slot that sells at `price` has the quantity added to its
/// `filled_sell` and its index is returned; every other slot is left as it
/// was. Without such a slot nothing changes and the result is `None`.
pub fn add_filled_sell_for_ask_price(
    orders: &mut OrdersState,
    price: Price,
    quantity: Quantity,
) -> (matched: Option<usize>)
    ensures
        sell_fill_books(old(orders)@, final(orders)@, price, quantity, matched),
        old(orders).wf() ==> final(orders).wf(),
        old(orders).distinct_bids() ==> final(orders).distinct_bids(),
{
    match find_slot_by_ask(orders, price) {
        None => None,
        Some(index) => {
            let slot = &mut orders.orders[index];
            slot.spot.filled_sell = slot.spot.filled_sell.saturating_add(quantity);
            proof {
                assert(orders@ =~= after_step(
                    old(orders)@,
                    TableStep::SellFilled { index, quantity },
                ));
            }
            Some(index)
        },
    }
}

/// Notes that the venue accepted the paired SELL of slot `index` under
/// `order_id`: the id is appended to the slot's `sell_order_ids`. An index
/// outside the table changes nothing.
pub fn record_sell_order(orders: &mut OrdersState, index: usize, order_id: String)
    ensures
        final(orders)@ == after_step(
            old(orders)@,
            TableStep::SellPlaced { index, order_id: order_id@ },
        ),
        old(orders).wf() ==> final(orders).wf(),
        old(orders).distinct_bids() ==> final(orders).distinct_bids(),
{
    if index < orders.orders.len() {
        let slot = &mut orders.orders[index];
        slot.spot.sell_order_ids.push(order_id);
        proof {
            assert(orders.orders@[index as int].spot.sell_order_ids.deep_view() =~= old(
                orders,
            ).orders@[index as int].spot.sell_order_ids.deep_view().push(order_id@));
            assert(orders@ =~= after_step(
                old(orders)@,
                TableStep::SellPlaced { index, order_id: order_id@ },
            ));
        }
    } else {
        assert(orders@ =~= old(orders)@);
    }
}

} // verus!
