//! The futures hedge: choosing the slot to short or to cover, and booking
//! the result once the venue has accepted the order.

use vstd::prelude::*;
use crate::amount::{Price, Quantity};
use crate::logic::steps::{after_step, TableStep};
use crate::state::orders::{OrdersState, SlotView};

verus! {

/// A futures MARKET order for the hedge of slot `index`.
#[derive(Debug, Clone, Copy, PartialEq, Eq, Structural)]
pub struct ShortOrder {
    pub index: usize,
    pub size: Quantity,
}

/// A slot that calls for a new short when the best bid is `best_bid`: it
/// bids above it, carries no short, and has not yet sold its whole target.
pub open spec fn wants_short(slot: SlotView, best_bid: Price) -> bool {
    &&& slot.spot.bid_price matches Some(bid) && best_bid < bid
    &&& !slot.has_open_short
    &&& slot.amount_target > slot.spot.filled_sell
}

/// A slot whose short is covered when the best bid is `best_bid`: it bids
/// exactly there and carries a short of positive size.
pub open spec fn wants_cover(slot: SlotView, best_bid: Price) -> bool {
    &&& slot.spot.bid_price == Some(best_bid)
    &&& slot.has_open_short
    &&& slot.size_position > 0
}

/// Picks the short to open after the best bid fell to `new_best_bid`.
///
/// It is the first slot, in index order, that [`wants_short`]; the size is
/// what the slot still has to sell, `amount_target - filled_sell`. `None`
/// means that no slot qualifies.
pub fn openshort(orders: &OrdersState, new_best_bid: Price) -> (selected: Option<ShortOrder>)
    ensures
        match selected {
            Some(order) => {
                &&& order.index < orders@.len()
                &&& wants_short(orders@[order.index as int], new_best_bid)
                &&& forall|k: int| 0 <= k < order.index ==> !wants_short(orders@[k], new_best_bid)
                &&& order.size == orders@[order.index as int].amount_target
                    - orders@[order.index as int].spot.filled_sell
                &&& order.size > 0
            },
            None => forall|k: int| 0 <= k < orders@.len() ==> !wants_short(orders@[k], new_best_bid),
        },
{
    let mut i: usize = 0;
    while i < orders.orders.len()
        invariant
            i <= orders.orders@.len(),
            orders@.len() == orders.orders@.len(),
            forall|k: int| 0 <= k < i ==> !wants_short(orders@[k], new_best_bid),
        decreases orders.orders@.len() - i,
    {
        let slot = &orders.orders[i];
        assert(slot@ == orders@[i as int]);
        match slot.spot.bid_price {
            Some(bid) => {
                if !slot.has_open_short && new_best_bid < bid && slot.amount_target
                    > slot.spot.filled_sell {
                    return Some(
                        ShortOrder { index: i, size: slot.amount_target - slot.spot.filled_sell },
                    );
                }
            },
            None => {},
        }
        i += 1;
    }
    None
}

/// Picks the short to close after the best bid rose to `new_best_bid`.
///
/// It is the first slot, in index order, that [`wants_cover`]; the size is
/// the slot's `size_position`. `None` means that no slot qualifies.
pub fn closeshort(orders: &OrdersState, new_best_bid: Price) -> (selected: Option<ShortOrder>)
    ensures
        match selected {
            Some(order) => {
                &&& order.index < orders@.len()
                &&& wants_cover(orders@[order.index as int], new_best_bid)
                &&& forall|k: int| 0 <= k < order.index ==> !wants_cover(orders@[k], new_best_bid)
                &&& order.size == orders@[order.index as int].size_position
                &&& order.size > 0
            },
            None => forall|k: int| 0 <= k < orders@.len() ==> !wants_cover(orders@[k], new_best_bid),
        },
{
    let mut i: usize = 0;
    while i < orders.orders.len()
        invariant
            i <= orders.orders@.len(),
            orders@.len() == orders.orders@.len(),
            forall|k: int| 0 <= k < i ==> !wants_cover(orders@[k], new_best_bid),
        decreases orders.orders@.len() - i,
    {
        let slot = &orders.orders[i];
        assert(slot@ == orders@[i as int]);
        match slot.spot.bid_price {
            Some(bid) => {
                if slot.has_open_short && new_best_bid == bid && slot.size_position > 0 {
                    return Some(ShortOrder { index: i, size: slot.size_position });
                }
            },
            None => {},
        }
        i += 1;
    }
    None
}

/// Books a short that the venue accepted: slot `order.index` carries a short
/// of `order.size` from now on. An index outside the table changes nothing.
pub fn record_short_opened(orders: &mut OrdersState, order: ShortOrder)
    requires
        order.size > 0,
    ensures
        final(orders)@ == after_step(old(orders)@, TableStep::ShortOpened { order }),
        old(orders).wf() ==> final(orders).wf(),
        old(orders).distinct_bids() ==> final(orders).distinct_bids(),
{
    if order.index < orders.orders.len() {
        let slot = &mut orders.orders[order.index];
        slot.has_open_short = true;
        slot.size_position = order.size;
        proof {
            assert(orders@ =~= after_step(old(orders)@, TableStep::ShortOpened { order }));
        }
    } else {
        assert(orders@ =~= old(orders)@);
    }
}

/// Books a cover that the venue accepted: slot `index` carries no short any
/// more. An index outside the table changes nothing.
pub fn record_short_closed(orders: &mut OrdersState, index: usize)
    ensures
        final(orders)@ == after_step(old(orders)@, TableStep::ShortClosed { index }),
        old(orders).wf() ==> final(orders).wf(),
        old(orders).distinct_bids() ==> final(orders).distinct_bids(),
{
    if index < orders.orders.len() {
        let slot = &mut orders.orders[index];
        slot.has_open_short = false;
        slot.size_position = 0;
        proof {
            assert(orders@ =~= after_step(old(orders)@, TableStep::ShortClosed { index }));
        }
    } else {
        assert(orders@ =~= old(orders)@);
    }
}

} // verus!
