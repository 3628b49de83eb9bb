//! The changes that are made to the slot table, one slot at a time.

use vstd::prelude::*;
use crate::amount::Quantity;
use crate::logic::hedge::ShortOrder;
use crate::logic::reconcile::BuyPlacement;
use crate::state::orders::{price_held_elsewhere, SlotView, SpotView};

verus! {

/// A counter after `quantity` was added; it stops at the largest value it
/// can hold.
pub open spec fn counter_plus(counter: Quantity, quantity: Quantity) -> Quantity {
    if counter + quantity > u64::MAX {
        u64::MAX
    } else {
        (counter + quantity) as u64
    }
}

/// The slot after `quantity` more was bought.
pub open spec fn with_buy_fill(slot: SlotView, quantity: Quantity) -> SlotView {
    SlotView {
        spot: SpotView { filled_buy: counter_plus(slot.spot.filled_buy, quantity), ..slot.spot },
        ..slot
    }
}

/// The slot after `quantity` more was sold.
pub open spec fn with_sell_fill(slot: SlotView, quantity: Quantity) -> SlotView {
    SlotView {
        spot: SpotView { filled_sell: counter_plus(slot.spot.filled_sell, quantity), ..slot.spot },
        ..slot
    }
}

/// The slot after a SELL with id `order_id` was placed for it.
pub open spec fn with_sell_order(slot: SlotView, order_id: Seq<char>) -> SlotView {
    SlotView {
        spot: SpotView { sell_order_ids: slot.spot.sell_order_ids.push(order_id), ..slot.spot },
        ..slot
    }
}

/// The slot after its short of `size` was opened.
pub open spec fn with_short(slot: SlotView, size: Quantity) -> SlotView {
    SlotView { has_open_short: true, size_position: size, ..slot }
}

/// The slot after its short was closed.
pub open spec fn without_short(slot: SlotView) -> SlotView {
    SlotView { has_open_short: false, size_position: 0, ..slot }
}

/// The slot once a BUY placed for it was accepted under `order_id`.
pub open spec fn with_buy_order(slot: SlotView, buy: BuyPlacement, order_id: Seq<char>) -> SlotView {
    SlotView {
        spot: SpotView {
            bid_price: Some(buy.price),
            ask_price: Some(buy.ask_price),
            buy_order_ids: slot.spot.buy_order_ids.push(order_id),
            ..slot.spot
        },
        ..slot
    }
}

/// The slot once its orders were cancelled: no prices, no ids, nothing
/// filled. Its hedge is not touched.
pub open spec fn cleaned(slot: SlotView) -> SlotView {
    SlotView {
        spot: SpotView {
            bid_price: None,
            ask_price: None,
            buy_order_ids: Seq::empty(),
            sell_order_ids: Seq::empty(),
            filled_buy: 0,
            filled_sell: 0,
        },
        ..slot
    }
}

/// One change to the slot table, as the functions of this crate make them.
pub enum TableStep {
    /// A BUY execution was added to a slot's `filled_buy`.
    BuyFilled { index: usize, quantity: Quantity },
    /// A SELL execution was added to a slot's `filled_sell`.
    SellFilled { index: usize, quantity: Quantity },
    /// A paired SELL was accepted by the venue.
    SellPlaced { index: usize, order_id: Seq<char> },
    /// A BUY was accepted by the venue.
    BuyPlaced { buy: BuyPlacement, order_id: Seq<char> },
    /// A slot's orders were cancelled and the slot cleaned.
    Cleaned { index: usize },
    /// A short was opened for a slot.
    ShortOpened { order: ShortOrder },
    /// A slot's short was closed.
    ShortClosed { index: usize },
}

/// The slot a step touches.
pub open spec fn step_index(step: TableStep) -> usize {
    match step {
        TableStep::BuyFilled { index, .. } => index,
        TableStep::SellFilled { index, .. } => index,
        TableStep::SellPlaced { index, .. } => index,
        TableStep::BuyPlaced { buy, .. } => buy.index,
        TableStep::Cleaned { index } => index,
        TableStep::ShortOpened { order } => order.index,
        TableStep::ShortClosed { index } => index,
    }
}

/// What a step makes of the slot it touches.
pub open spec fn step_slot(slot: SlotView, step: TableStep) -> SlotView {
    match step {
        TableStep::BuyFilled { quantity, .. } => with_buy_fill(slot, quantity),
        TableStep::SellFilled { quantity, .. } => with_sell_fill(slot, quantity),
        TableStep::SellPlaced { order_id, .. } => with_sell_order(slot, order_id),
        TableStep::BuyPlaced { buy, order_id } => with_buy_order(slot, buy, order_id),
        TableStep::Cleaned { .. } => cleaned(slot),
        TableStep::ShortOpened { order } => with_short(slot, order.size),
        TableStep::ShortClosed { .. } => without_short(slot),
    }
}

/// The table after a step. A step on a slot that does not exist changes
/// nothing.
pub open spec fn after_step(slots: Seq<SlotView>, step: TableStep) -> Seq<SlotView> {
    if step_index(step) < slots.len() {
        slots.update(step_index(step) as int, step_slot(slots[step_index(step) as int], step))
    } else {
        slots
    }
}

/// The steps that the bot takes: a short is opened with a positive size
/// only, and a BUY is booked only at a price at which no other slot bids.
pub open spec fn step_allowed(slots: Seq<SlotView>, step: TableStep) -> bool {
    match step {
        TableStep::ShortOpened { order } => order.size > 0,
        TableStep::BuyPlaced { buy, .. } => !price_held_elsewhere(
            slots,
            buy.index as int,
            buy.price,
        ),
        _ => true,
    }
}

} // verus!
