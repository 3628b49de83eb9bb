//! The slot table: four managed positions, each a resting BUY with its
//! paired SELL and its hedge.

use vstd::prelude::*;
use crate::amount::{Price, Quantity};

verus! {

/// Number of slots. The index of a slot is its identity; slots are neither
/// added nor removed.
pub const SLOT_COUNT: usize = 4;

/// Base quantity each slot aims to buy: 500 wholes.
pub const DEFAULT_AMOUNT_TARGET: Quantity = 50_000_000_000;

/// What a [`SpotState`] holds, as plain values.
#[verifier::ext_equal]
pub struct SpotView {
    pub bid_price: Option<Price>,
    pub ask_price: Option<Price>,
    pub buy_order_ids: Seq<Seq<char>>,
    pub sell_order_ids: Seq<Seq<char>>,
    pub filled_buy: Quantity,
    pub filled_sell: Quantity,
}

impl SpotView {
    /// Nothing rests, nothing is filled.
    pub open spec fn is_empty(self) -> bool {
        &&& self.bid_price is None
        &&& self.ask_price is None
        &&& self.buy_order_ids.len() == 0
        &&& self.sell_order_ids.len() == 0
        &&& self.filled_buy == 0
        &&& self.filled_sell == 0
    }
}

/// What an [`ActiveOrder`] holds, as plain values.
#[verifier::ext_equal]
pub struct SlotView {
    pub amount_target: Quantity,
    pub has_open_short: bool,
    pub size_position: Quantity,
    pub spot: SpotView,
}

impl SlotView {
    /// A BUY price is known exactly when a BUY id is held, and a short is
    /// open exactly when its size is positive.
    pub open spec fn wf(self) -> bool {
        &&& self.spot.bid_price is Some <==> self.spot.buy_order_ids.len() > 0
        &&& self.has_open_short <==> self.size_position > 0
    }

    /// A slot with a BUY price whose paired SELL is still open.
    pub open spec fn is_frozen(self) -> bool {
        self.spot.bid_price is Some && self.spot.sell_order_ids.len() > 0
    }
}

/// The spot side of a slot.
#[derive(Debug, Clone)]
pub struct SpotState {
    /// Price of the BUY that rests for this slot.
    pub bid_price: Option<Price>,
    /// Price at which fills of that BUY are sold again.
    pub ask_price: Option<Price>,
    pub buy_order_ids: Vec<String>,
    pub sell_order_ids: Vec<String>,
    /// Base quantity bought since the slot was last cleaned.
    pub filled_buy: Quantity,
    /// Base quantity sold since the slot was last cleaned.
    pub filled_sell: Quantity,
}

impl View for SpotState {
    type V = SpotView;

    open spec fn view(&self) -> SpotView {
        SpotView {
            bid_price: self.bid_price,
            ask_price: self.ask_price,
            buy_order_ids: self.buy_order_ids.deep_view(),
            sell_order_ids: self.sell_order_ids.deep_view(),
            filled_buy: self.filled_buy,
            filled_sell: self.filled_sell,
        }
    }
}

impl SpotState {
    pub fn new() -> (spot: Self)
        ensures
            spot@.is_empty(),
    {
        SpotState {
            bid_price: None,
            ask_price: None,
            buy_order_ids: Vec::new(),
            sell_order_ids: Vec::new(),
            filled_buy: 0,
            filled_sell: 0,
        }
    }
}

/// One slot.
#[derive(Debug, Clone)]
pub struct ActiveOrder {
    pub amount_target: Quantity,
    /// Whether the hedge leg is live on futures.
    pub has_open_short: bool,
    /// Size of the open short; zero when there is none.
    pub size_position: Quantity,
    pub spot: SpotState,
}

impl View for ActiveOrder {
    type V = SlotView;

    open spec fn view(&self) -> SlotView {
        SlotView {
            amount_target: self.amount_target,
            has_open_short: self.has_open_short,
            size_position: self.size_position,
            spot: self.spot@,
        }
    }
}

/// The slot every table starts with: the default target, no order, no short.
pub open spec fn fresh_slot() -> SlotView {
    SlotView {
        amount_target: DEFAULT_AMOUNT_TARGET,
        has_open_short: false,
        size_position: 0,
        spot: SpotView {
            bid_price: None,
            ask_price: None,
            buy_order_ids: Seq::empty(),
            sell_order_ids: Seq::empty(),
            filled_buy: 0,
            filled_sell: 0,
        },
    }
}

impl ActiveOrder {
    pub fn new() -> (slot: Self)
        ensures
            slot@ == fresh_slot(),
    {
        let slot = ActiveOrder {
            amount_target: DEFAULT_AMOUNT_TARGET,
            has_open_short: false,
            size_position: 0,
            spot: SpotState::new(),
        };
        assert(slot@ =~= fresh_slot());
        slot
    }

    /// Runtime test of [`SlotView::wf`].
    pub fn is_wf(&self) -> (ok: bool)
        ensures
            ok == self@.wf(),
    {
        self.spot.bid_price.is_some() == (self.spot.buy_order_ids.len() > 0)
            && self.has_open_short == (self.size_position > 0)
    }
}

/// No two of the slots hold the same BUY price.
pub open spec fn bids_distinct(slots: Seq<SlotView>) -> bool {
    forall|i: int, j: int|
        0 <= i < slots.len() && 0 <= j < slots.len() && i != j && slots[i].spot.bid_price is Some
            ==> slots[i].spot.bid_price != slots[j].spot.bid_price
}

/// Whether a slot other than `index` holds `price` as its BUY price.
pub open spec fn price_held_elsewhere(slots: Seq<SlotView>, index: int, price: Price) -> bool {
    exists|k: int| 0 <= k < slots.len() && k != index && slots[k].spot.bid_price == Some(price)
}

/// There are exactly four slots and each is well formed.
pub open spec fn table_wf(slots: Seq<SlotView>) -> bool {
    &&& slots.len() == SLOT_COUNT
    &&& forall|i: int| 0 <= i < slots.len() ==> (#[trigger] slots[i]).wf()
}

/// The slot table.
#[derive(Debug, Clone)]
pub struct OrdersState {
    pub orders: Vec<ActiveOrder>,
}

impl View for OrdersState {
    type V = Seq<SlotView>;

    open spec fn view(&self) -> Seq<SlotView> {
        self.orders@.map_values(|slot: ActiveOrder| slot@)
    }
}

impl OrdersState {
    /// There are exactly four slots and each is well formed.
    pub open spec fn wf(&self) -> bool {
        table_wf(self@)
    }

    /// Each book level is occupied by at most one slot.
    pub open spec fn distinct_bids(&self) -> bool {
        bids_distinct(self@)
    }

    /// Four fresh slots.
    pub fn new() -> (state: Self)
        ensures
            state@ == Seq::new(SLOT_COUNT as nat, |i: int| fresh_slot()),
            state.wf(),
            state.distinct_bids(),
    {
        let mut orders: Vec<ActiveOrder> = Vec::new();
        let mut i: usize = 0;
        while i < SLOT_COUNT
            invariant
                i <= SLOT_COUNT,
                orders@.len() == i,
                forall|k: int| 0 <= k < i ==> (#[trigger] orders@[k])@ == fresh_slot(),
            decreases SLOT_COUNT - i,
        {
            orders.push(ActiveOrder::new());
            i += 1;
        }
        let state = OrdersState { orders };
        assert(state@ =~= Seq::new(SLOT_COUNT as nat, |i: int| fresh_slot()));
        state
    }

    /// Runtime test of [`Self::wf`].
    pub fn is_wf(&self) -> (ok: bool)
        ensures
            ok == self.wf(),
    {
        if self.orders.len() != SLOT_COUNT {
            return false;
        }
        let mut i: usize = 0;
        while i < self.orders.len()
            invariant
                i <= self.orders@.len(),
                self@.len() == self.orders@.len(),
                forall|k: int| 0 <= k < i ==> (#[trigger] self@[k]).wf(),
            decreases self.orders@.len() - i,
        {
            if !self.orders[i].is_wf() {
                assert(!self@[i as int].wf());
                return false;
            }
            i += 1;
        }
        true
    }

    /// Runtime test of [`Self::distinct_bids`].
    pub fn has_distinct_bids(&self) -> (ok: bool)
        ensures
            ok == self.distinct_bids(),
    {
        let n = self.orders.len();
        let mut i: usize = 0;
        while i < n
            invariant
                n == self@.len(),
                n == self.orders@.len(),
                i <= n,
                forall|a: int, b: int|
                    0 <= a < i && 0 <= b < n && a != b && self@[a].spot.bid_price is Some
                        ==> self@[a].spot.bid_price != self@[b].spot.bid_price,
            decreases n - i,
        {
            match self.orders[i].spot.bid_price {
                Some(price) => {
                    let mut j: usize = 0;
                    while j < n
                        invariant
                            n == self@.len(),
                            n == self.orders@.len(),
                            i < n,
                            j <= n,
                            self@[i as int].spot.bid_price == Some(price),
                            forall|b: int|
                                0 <= b < j && b != i ==> self@[b].spot.bid_price != Some(price),
                        decreases n - j,
                    {
                        if j != i {
                            match self.orders[j].spot.bid_price {
                                Some(other) => {
                                    if other == price {
                                        assert(self@[j as int].spot.bid_price == Some(price));
                                        return false;
                                    }
                                },
                                None => {},
                            }
                        }
                        j += 1;
                    }
                },
                None => {},
            }
            i += 1;
        }
        true
    }
}

} // verus!
