//! The buy reconciler: on each refresh of the book the slots are sorted into
//! frozen ones, ones whose BUY still rests at a best level, ones whose BUY
//! has drifted out, and ones that need a BUY.

use vstd::prelude::*;
use crate::amount::{paired_ask, quote_ask, Price, Quantity};
use crate::logic::levels::{
    find_level,
    has_level_at,
    is_in_levels,
    lemma_strike_in_range,
    level_index,
    strike,
    strike_level,
};
use crate::state::asset::AssetState;
use crate::state::orderbook::{prices_in_range, OrderbookLevel, OrderbookState};
use crate::logic::steps::{after_step, cleaned, TableStep};
use crate::state::orders::{price_held_elsewhere, OrdersState, SlotView, SLOT_COUNT};

verus! {

/// How many levels of each side the reconciler looks at.
pub const BEST_LEVELS: usize = 4;

/// The first [`BEST_LEVELS`] levels of one side.
pub open spec fn best_levels(levels: Seq<OrderbookLevel>) -> Seq<OrderbookLevel> {
    if levels.len() <= BEST_LEVELS {
        levels
    } else {
        levels.take(BEST_LEVELS as int)
    }
}

/// The slot indices `0..n`, in order.
pub open spec fn slot_indices(n: nat) -> Seq<usize> {
    Seq::new(n, |i: int| i as usize)
}

/// Whether `c` names a frozen slot.
pub open spec fn slot_is_frozen(slots: Seq<SlotView>, c: usize) -> bool {
    c < slots.len() && slots[c as int].is_frozen()
}

/// The test a candidate passes when it does not name a frozen slot.
pub open spec fn not_frozen(slots: Seq<SlotView>) -> spec_fn(usize) -> bool {
    |c: usize| !slot_is_frozen(slots, c)
}

/// The best bids left once every frozen slot, in index order, has struck
/// out its level.
pub open spec fn frozen_levels(slots: Seq<SlotView>, levels: Seq<OrderbookLevel>) -> Seq<
    OrderbookLevel,
>
    decreases slots.len(),
{
    if slots.len() == 0 {
        levels
    } else {
        let before = frozen_levels(slots.drop_last(), levels);
        if slots.last().is_frozen() {
            strike_level(before, slots.last().spot.bid_price->0)
        } else {
            before
        }
    }
}

/// A frozen slot whose BUY price shows neither among the best bids nor
/// among the best asks: its SELL no longer rests near the top of the book.
pub open spec fn sell_left_behind(
    slot: SlotView,
    bids: Seq<OrderbookLevel>,
    asks: Seq<OrderbookLevel>,
) -> bool {
    &&& slot.is_frozen()
    &&& !has_level_at(bids, slot.spot.bid_price->0)
    &&& !has_level_at(asks, slot.spot.bid_price->0)
}

/// The indices of the slots whose SELLs are marked for requeue, ascending.
pub open spec fn requeue_marks(
    slots: Seq<SlotView>,
    bids: Seq<OrderbookLevel>,
    asks: Seq<OrderbookLevel>,
) -> Seq<usize>
    decreases slots.len(),
{
    if slots.len() == 0 {
        Seq::empty()
    } else {
        let before = requeue_marks(slots.drop_last(), bids, asks);
        if sell_left_behind(slots.last(), bids, asks) {
            before.push((slots.len() - 1) as usize)
        } else {
            before
        }
    }
}

/// What the second phase makes of a list of candidates.
pub struct ActiveSplit {
    /// The candidates that still need a BUY, in their order.
    pub candidates: Seq<usize>,
    /// The best bids that no slot covers.
    pub levels: Seq<OrderbookLevel>,
    /// The candidates whose BUY rests at none of the best bids: their
    /// orders are to be cancelled and the slot cleaned.
    pub stale: Seq<usize>,
    /// The candidates whose BUY rests at one of the best bids: they left
    /// the candidates together with that level.
    pub matched: Seq<usize>,
}

/// Runs the second phase over `candidates`, one after the other.
///
/// A candidate without a BUY price stays. One whose BUY price is among the
/// levels leaves with that level. One whose BUY price is not stays, and is
/// stale.
pub open spec fn active_split(
    slots: Seq<SlotView>,
    candidates: Seq<usize>,
    levels: Seq<OrderbookLevel>,
) -> ActiveSplit
    decreases candidates.len(),
{
    if candidates.len() == 0 {
        ActiveSplit { candidates: Seq::empty(), levels, stale: Seq::empty(), matched: Seq::empty() }
    } else {
        let before = active_split(slots, candidates.drop_last(), levels);
        let c = candidates.last();
        if c < slots.len() && slots[c as int].spot.bid_price is Some {
            match level_index(before.levels, slots[c as int].spot.bid_price->0) {
                Some(i) => ActiveSplit {
                    levels: before.levels.remove(i),
                    matched: before.matched.push(c),
                    ..before
                },
                None => ActiveSplit {
                    candidates: before.candidates.push(c),
                    stale: before.stale.push(c),
                    ..before
                },
            }
        } else {
            ActiveSplit { candidates: before.candidates.push(c), ..before }
        }
    }
}

/// A spot BUY LIMIT GTC to place for slot `index`, with the SELL price the
/// slot takes on once the venue has accepted it.
#[derive(Debug, Clone, Copy, PartialEq, Eq, Structural)]
pub struct BuyPlacement {
    pub index: usize,
    pub price: Price,
    pub quantity: Quantity,
    pub ask_price: Price,
}

/// The BUY that puts `slot`, which has index `index`, on `level`.
pub open spec fn placement_for(
    slot: SlotView,
    index: usize,
    level: OrderbookLevel,
    tick_size: Price,
) -> BuyPlacement {
    BuyPlacement {
        index,
        price: level.price,
        quantity: slot.amount_target,
        ask_price: paired_ask(level.price, tick_size) as u64,
    }
}

/// The BUYs for the first `n` pairs of candidate and level. A candidate
/// that names no slot gets none.
pub open spec fn planned_buys(
    slots: Seq<SlotView>,
    tick_size: Price,
    candidates: Seq<usize>,
    levels: Seq<OrderbookLevel>,
    n: nat,
) -> Seq<BuyPlacement>
    decreases n,
{
    if n == 0 {
        Seq::empty()
    } else {
        let before = planned_buys(slots, tick_size, candidates, levels, (n - 1) as nat);
        let c = candidates[n - 1];
        if c < slots.len() {
            before.push(placement_for(slots[c as int], c, levels[n - 1], tick_size))
        } else {
            before
        }
    }
}

/// Number of pairs that candidates and levels make, position by position.
pub open spec fn pair_count(candidates: Seq<usize>, levels: Seq<OrderbookLevel>) -> nat {
    if candidates.len() <= levels.len() {
        candidates.len()
    } else {
        levels.len()
    }
}

/// The best four bids and the best four asks of the book.
pub fn get_best_bid_and_ask(book: &OrderbookState) -> (best: (
    Vec<OrderbookLevel>,
    Vec<OrderbookLevel>,
))
    ensures
        best.0@ == best_levels(book.bids@),
        best.1@ == best_levels(book.asks@),
{
    (first_levels(&book.bids), first_levels(&book.asks))
}

/// The first [`BEST_LEVELS`] levels of one side.
pub fn first_levels(levels: &Vec<OrderbookLevel>) -> (best: Vec<OrderbookLevel>)
    ensures
        best@ == best_levels(levels@),
{
    let n = if levels.len() <= BEST_LEVELS {
        levels.len()
    } else {
        BEST_LEVELS
    };
    let mut best: Vec<OrderbookLevel> = Vec::new();
    let mut i: usize = 0;
    while i < n
        invariant
            i <= n <= levels@.len(),
            best@ == levels@.take(i as int),
        decreases n - i,
    {
        best.push(levels[i]);
        assert(best@ =~= levels@.take(i as int + 1));
        i += 1;
    }
    assert(levels@.take(levels@.len() as int) =~= levels@);
    best
}

/// Takes note of SELL orders that no longer rest near the top of the book.
/// What is to become of them is left open: they stay as they are.
#[allow(non_snake_case)]
pub fn Requeue(_sell_order_ids: &[String]) {
}

/// The outcome of the first phase.
#[derive(Debug, Clone)]
pub struct FrozenPass {
    /// The candidates that name no frozen slot, in their order.
    pub candidates: Vec<usize>,
    /// The best bids that no frozen slot accounts for.
    pub best_bids: Vec<OrderbookLevel>,
    /// The slots whose SELLs were marked for requeue, ascending.
    pub requeue: Vec<usize>,
}

/// First phase: freezes the slots whose paired SELL is still open.
///
/// Every slot with a BUY price and at least one SELL id leaves the
/// candidates and strikes out one best bid: the level at its BUY price or,
/// where there is none, the lowest-priced level left. Where its BUY price
/// shows on neither side of the book its SELLs are marked for requeue.
#[allow(non_snake_case)]
pub fn ProcessFrozenBlocks(
    orders: &OrdersState,
    candidates: Vec<usize>,
    best_bids: &[OrderbookLevel],
    best_asks: &[OrderbookLevel],
) -> (pass: FrozenPass)
    ensures
        pass.candidates@ == candidates@.filter(not_frozen(orders@)),
        pass.best_bids@ == frozen_levels(orders@, best_bids@),
        pass.requeue@ == requeue_marks(orders@, best_bids@, best_asks@),
{
    let mut levels: Vec<OrderbookLevel> = Vec::new();
    let mut k: usize = 0;
    while k < best_bids.len()
        invariant
            k <= best_bids@.len(),
            levels@ == best_bids@.take(k as int),
        decreases best_bids@.len() - k,
    {
        levels.push(best_bids[k]);
        assert(levels@ =~= best_bids@.take(k as int + 1));
        k += 1;
    }
    assert(best_bids@.take(k as int) =~= best_bids@);

    let mut requeue: Vec<usize> = Vec::new();
    let mut i: usize = 0;
    assert(orders@.take(0).len() == 0);
    while i < orders.orders.len()
        invariant
            i <= orders.orders@.len(),
            orders@.len() == orders.orders@.len(),
            levels@ == frozen_levels(orders@.take(i as int), best_bids@),
            requeue@ == requeue_marks(orders@.take(i as int), best_bids@, best_asks@),
        decreases orders.orders@.len() - i,
    {
        let slot = &orders.orders[i];
        proof {
            let upto = orders@.take(i as int + 1);
            assert(upto.drop_last() =~= orders@.take(i as int));
            assert(upto.last() == slot@);
        }
        match slot.spot.bid_price {
            Some(price) => {
                if slot.spot.sell_order_ids.len() > 0 {
                    strike(&mut levels, price);
                    if !is_in_levels(best_bids, price) && !is_in_levels(best_asks, price) {
                        Requeue(slot.spot.sell_order_ids.as_slice());
                        requeue.push(i);
                    }
                }
            },
            None => {},
        }
        i += 1;
    }
    assert(orders@.take(i as int) =~= orders@);

    let mut kept: Vec<usize> = Vec::new();
    let mut j: usize = 0;
    assert(candidates@.take(0).filter(not_frozen(orders@)) =~= Seq::<usize>::empty()) by {
        reveal(Seq::filter);
    }
    while j < candidates.len()
        invariant
            j <= candidates@.len(),
            orders@.len() == orders.orders@.len(),
            kept@ == candidates@.take(j as int).filter(not_frozen(orders@)),
        decreases candidates@.len() - j,
    {
        let c = candidates[j];
        proof {
            let upto = candidates@.take(j as int + 1);
            assert(upto.drop_last() =~= candidates@.take(j as int));
            assert(upto.last() == c);
            reveal(Seq::filter);
        }
        let frozen = c < orders.orders.len() && orders.orders[c].spot.bid_price.is_some()
            && orders.orders[c].spot.sell_order_ids.len() > 0;
        assert(frozen == slot_is_frozen(orders@, c));
        if !frozen {
            kept.push(c);
        }
        j += 1;
    }
    assert(candidates@.take(j as int) =~= candidates@);
    FrozenPass { candidates: kept, best_bids: levels, requeue }
}

/// The outcome of the second phase.
#[derive(Debug, Clone)]
pub struct ActivePass {
    /// The candidates that still need a BUY, in their order.
    pub candidates: Vec<usize>,
    /// The best bids that no slot covers.
    pub best_bids: Vec<OrderbookLevel>,
    /// The candidates whose orders are to be cancelled at the venue; once
    /// that has succeeded the slot is cleaned with [`CleanOrder`].
    pub stale: Vec<usize>,
}

/// Second phase: matches the resting BUYs of the candidates against the
/// best bids that are left.
///
/// A candidate whose BUY price is one of the levels leaves the candidates
/// and takes the level with it. One whose BUY price is none of them has
/// drifted out of the best levels: it stays a candidate and is reported as
/// stale. A candidate without a BUY price, or one that names no slot, stays.
#[allow(non_snake_case)]
pub fn ProcessActiveBuyOrders(
    orders: &OrdersState,
    candidates: Vec<usize>,
    best_bids: &[OrderbookLevel],
) -> (pass: ActivePass)
    ensures
        pass.candidates@ == active_split(orders@, candidates@, best_bids@).candidates,
        pass.best_bids@ == active_split(orders@, candidates@, best_bids@).levels,
        pass.stale@ == active_split(orders@, candidates@, best_bids@).stale,
{
    let mut levels: Vec<OrderbookLevel> = Vec::new();
    let mut k: usize = 0;
    while k < best_bids.len()
        invariant
            k <= best_bids@.len(),
            levels@ == best_bids@.take(k as int),
        decreases best_bids@.len() - k,
    {
        levels.push(best_bids[k]);
        assert(levels@ =~= best_bids@.take(k as int + 1));
        k += 1;
    }
    assert(best_bids@.take(k as int) =~= best_bids@);

    let mut kept: Vec<usize> = Vec::new();
    let mut stale: Vec<usize> = Vec::new();
    let mut j: usize = 0;
    assert(candidates@.take(0).len() == 0);
    while j < candidates.len()
        invariant
            j <= candidates@.len(),
            orders@.len() == orders.orders@.len(),
            kept@ == active_split(orders@, candidates@.take(j as int), best_bids@).candidates,
            levels@ == active_split(orders@, candidates@.take(j as int), best_bids@).levels,
            stale@ == active_split(orders@, candidates@.take(j as int), best_bids@).stale,
        decreases candidates@.len() - j,
    {
        let c = candidates[j];
        proof {
            let upto = candidates@.take(j as int + 1);
            assert(upto.drop_last() =~= candidates@.take(j as int));
            assert(upto.last() == c);
        }
        if c < orders.orders.len() {
            assert(orders@[c as int] == orders.orders@[c as int]@);
            match orders.orders[c].spot.bid_price {
                Some(price) => {
                    match find_level(&levels, price) {
                        Some(i) => {
                            levels.remove(i);
                        },
                        None => {
                            kept.push(c);
                            stale.push(c);
                        },
                    }
                },
                None => {
                    kept.push(c);
                },
            }
        } else {
            kept.push(c);
        }
        j += 1;
    }
    assert(candidates@.take(j as int) =~= candidates@);
    ActivePass { candidates: kept, best_bids: levels, stale }
}

/// Third phase: pairs the candidates with the levels, position by position,
/// and plans one BUY per pair.
///
/// Each BUY is for the slot's `amount_target` at the level's price; the SELL
/// price that goes with it is one tick above, on the tick grid. A candidate
/// that names no slot is passed over. Nothing is changed here: each BUY
/// that the venue accepts is booked with [`record_buy_order`].
#[allow(non_snake_case)]
pub fn FillMissingBestBids(
    orders: &OrdersState,
    asset: &AssetState,
    candidates: &[usize],
    best_bids: &[OrderbookLevel],
) -> (plan: Vec<BuyPlacement>)
    requires
        asset.wf(),
        prices_in_range(best_bids@),
    ensures
        plan@ == planned_buys(
            orders@,
            asset.tick_size,
            candidates@,
            best_bids@,
            pair_count(candidates@, best_bids@),
        ),
        forall|k: int| 0 <= k < plan@.len() ==> (#[trigger] plan@[k]).ask_price % asset.tick_size == 0,
{
    let pairs = if candidates.len() <= best_bids.len() {
        candidates.len()
    } else {
        best_bids.len()
    };
    let mut plan: Vec<BuyPlacement> = Vec::new();
    let mut n: usize = 0;
    while n < pairs
        invariant
            n <= pairs,
            pairs == pair_count(candidates@, best_bids@),
            orders@.len() == orders.orders@.len(),
            asset.wf(),
            prices_in_range(best_bids@),
            plan@ == planned_buys(orders@, asset.tick_size, candidates@, best_bids@, n as nat),
            forall|k: int|
                0 <= k < plan@.len() ==> (#[trigger] plan@[k]).ask_price % asset.tick_size == 0,
        decreases pairs - n,
    {
        let c = candidates[n];
        let level = best_bids[n];
        if c < orders.orders.len() {
            assert(orders@[c as int] == orders.orders@[c as int]@);
            let ask_price = quote_ask(level.price, asset.tick_size);
            plan.push(
                BuyPlacement {
                    index: c,
                    price: level.price,
                    quantity: orders.orders[c].amount_target,
                    ask_price,
                },
            );
        }
        n += 1;
    }
    plan
}

/// The first phase leaves every price within range.
pub proof fn lemma_frozen_levels_in_range(slots: Seq<SlotView>, levels: Seq<OrderbookLevel>)
    requires
        prices_in_range(levels),
    ensures
        prices_in_range(frozen_levels(slots, levels)),
    decreases slots.len(),
{
    if slots.len() > 0 {
        lemma_frozen_levels_in_range(slots.drop_last(), levels);
        if slots.last().is_frozen() {
            lemma_strike_in_range(
                frozen_levels(slots.drop_last(), levels),
                slots.last().spot.bid_price->0,
            );
        }
    }
}

/// The second phase leaves every price within range.
pub proof fn lemma_active_levels_in_range(
    slots: Seq<SlotView>,
    candidates: Seq<usize>,
    levels: Seq<OrderbookLevel>,
)
    requires
        prices_in_range(levels),
    ensures
        prices_in_range(active_split(slots, candidates, levels).levels),
    decreases candidates.len(),
{
    if candidates.len() > 0 {
        lemma_active_levels_in_range(slots, candidates.drop_last(), levels);
        let before = active_split(slots, candidates.drop_last(), levels);
        let c = candidates.last();
        if c < slots.len() && slots[c as int].spot.bid_price is Some {
            let price = slots[c as int].spot.bid_price->0;
            if level_index(before.levels, price) is Some {
                lemma_strike_in_range(before.levels, price);
            }
        }
    }
}

/// What one pass of the reconciler asks for.
#[derive(Debug, Clone)]
pub struct ReconcilePlan {
    /// The slots whose SELLs were marked for requeue.
    pub requeue: Vec<usize>,
    /// The slots whose orders are to be cancelled and which are then
    /// cleaned with [`CleanOrder`].
    pub stale: Vec<usize>,
    /// The BUYs to place; each one accepted is booked with
    /// [`record_buy_order`].
    pub placements: Vec<BuyPlacement>,
}

/// The candidates and levels that the first two phases leave of all four
/// slots and the best bids `bids`.
pub open spec fn reconcile_split(slots: Seq<SlotView>, bids: Seq<OrderbookLevel>) -> ActiveSplit {
    active_split(
        slots,
        slot_indices(SLOT_COUNT as nat).filter(not_frozen(slots)),
        frozen_levels(slots, bids),
    )
}

/// The BUYs that a pass over `slots` plans against the best bids `bids`.
pub open spec fn reconcile_buys(
    slots: Seq<SlotView>,
    bids: Seq<OrderbookLevel>,
    tick_size: Price,
) -> Seq<BuyPlacement> {
    let split = reconcile_split(slots, bids);
    planned_buys(
        slots,
        tick_size,
        split.candidates,
        split.levels,
        pair_count(split.candidates, split.levels),
    )
}

/// One pass of the reconciler over the book: the three phases in turn,
/// starting from all four slots as candidates and the best four levels of
/// each side.
#[allow(non_snake_case)]
pub fn EvaluateBuyOrders(orders: &OrdersState, book: &OrderbookState, asset: &AssetState) -> (plan:
    ReconcilePlan)
    requires
        asset.wf(),
        prices_in_range(book.bids@),
    ensures
        plan.requeue@ == requeue_marks(orders@, best_levels(book.bids@), best_levels(book.asks@)),
        plan.stale@ == reconcile_split(orders@, best_levels(book.bids@)).stale,
        plan.placements@ == reconcile_buys(orders@, best_levels(book.bids@), asset.tick_size),
        forall|k: int|
            0 <= k < plan.placements@.len() ==> (#[trigger] plan.placements@[k]).ask_price
                % asset.tick_size == 0,
{
    let mut candidates: Vec<usize> = Vec::new();
    let mut i: usize = 0;
    while i < SLOT_COUNT
        invariant
            i <= SLOT_COUNT,
            candidates@ == slot_indices(i as nat),
        decreases SLOT_COUNT - i,
    {
        candidates.push(i);
        assert(candidates@ =~= slot_indices((i + 1) as nat));
        i += 1;
    }
    let (best_bids, best_asks) = get_best_bid_and_ask(book);
    let frozen = ProcessFrozenBlocks(
        orders,
        candidates,
        best_bids.as_slice(),
        best_asks.as_slice(),
    );
    let active = ProcessActiveBuyOrders(orders, frozen.candidates, frozen.best_bids.as_slice());
    proof {
        lemma_frozen_levels_in_range(orders@, best_bids@);
        lemma_active_levels_in_range(orders@, frozen.candidates@, frozen.best_bids@);
    }
    let placements = FillMissingBestBids(
        orders,
        asset,
        active.candidates.as_slice(),
        active.best_bids.as_slice(),
    );
    ReconcilePlan { requeue: frozen.requeue, stale: active.stale, placements }
}

/// Books a BUY that the venue accepted under `order_id`: the slot takes the
/// BUY's price and the paired SELL price, and holds the id. An index outside
/// the table changes nothing.
///
/// The BUY prices of the table stay distinct as long as no other slot
/// already bids at the BUY's price.
pub fn record_buy_order(orders: &mut OrdersState, buy: BuyPlacement, order_id: String)
    ensures
        final(orders)@ == after_step(
            old(orders)@,
            TableStep::BuyPlaced { buy, order_id: order_id@ },
        ),
        old(orders).wf() ==> final(orders).wf(),
        old(orders).distinct_bids() && !price_held_elsewhere(
            old(orders)@,
            buy.index as int,
            buy.price,
        ) ==> final(orders).distinct_bids(),
{
    if buy.index < orders.orders.len() {
        let slot = &mut orders.orders[buy.index];
        slot.spot.buy_order_ids.push(order_id);
        slot.spot.bid_price = Some(buy.price);
        slot.spot.ask_price = Some(buy.ask_price);
        proof {
            assert(orders.orders@[buy.index as int].spot.buy_order_ids.deep_view() =~= old(
                orders,
            ).orders@[buy.index as int].spot.buy_order_ids.deep_view().push(order_id@));
            assert(orders@ =~= after_step(
                old(orders)@,
                TableStep::BuyPlaced { buy, order_id: order_id@ },
            ));
        }
    } else {
        assert(orders@ =~= old(orders)@);
    }
}

/// The ids to cancel before slot `index` is cleaned: its BUY ids, then its
/// SELL ids. Empty for an index outside the table.
pub fn clean_order_ids(orders: &OrdersState, index: usize) -> (ids: Vec<String>)
    ensures
        index < orders@.len() ==> ids.deep_view() == orders@[index as int].spot.buy_order_ids
            + orders@[index as int].spot.sell_order_ids,
        index >= orders@.len() ==> ids.deep_view().len() == 0,
{
    let mut ids: Vec<String> = Vec::new();
    if index < orders.orders.len() {
        let spot = &orders.orders[index].spot;
        let mut i: usize = 0;
        while i < spot.buy_order_ids.len()
            invariant
                i <= spot.buy_order_ids@.len(),
                ids.deep_view() == spot.buy_order_ids.deep_view().take(i as int),
            decreases spot.buy_order_ids@.len() - i,
        {
            let id = spot.buy_order_ids[i].clone();
            let ghost before = ids.deep_view();
            ids.push(id);
            assert(ids.deep_view() =~= before.push(id@));
            assert(ids.deep_view() =~= spot.buy_order_ids.deep_view().take(i as int + 1));
            i += 1;
        }
        assert(spot.buy_order_ids.deep_view().take(i as int) =~= spot.buy_order_ids.deep_view());
        let mut j: usize = 0;
        while j < spot.sell_order_ids.len()
            invariant
                j <= spot.sell_order_ids@.len(),
                ids.deep_view() == spot.buy_order_ids.deep_view()
                    + spot.sell_order_ids.deep_view().take(j as int),
            decreases spot.sell_order_ids@.len() - j,
        {
            let id = spot.sell_order_ids[j].clone();
            let ghost before = ids.deep_view();
            ids.push(id);
            assert(ids.deep_view() =~= before.push(id@));
            assert(ids.deep_view() =~= spot.buy_order_ids.deep_view()
                + spot.sell_order_ids.deep_view().take(j as int + 1));
            j += 1;
        }
        assert(spot.sell_order_ids.deep_view().take(j as int) =~= spot.sell_order_ids.deep_view());
    }
    ids
}

/// Cleans slot `index` after its orders were cancelled at the venue: prices,
/// ids and fill counters are reset. An index outside the table changes
/// nothing.
#[allow(non_snake_case)]
pub fn CleanOrder(orders: &mut OrdersState, index: usize)
    ensures
        final(orders)@ == after_step(old(orders)@, TableStep::Cleaned { index }),
        old(orders).wf() ==> final(orders).wf(),
        old(orders).distinct_bids() ==> final(orders).distinct_bids(),
{
    if index < orders.orders.len() {
        let slot = &mut orders.orders[index];
        slot.spot.bid_price = None;
        slot.spot.ask_price = None;
        slot.spot.buy_order_ids.clear();
        slot.spot.sell_order_ids.clear();
        slot.spot.filled_buy = 0;
        slot.spot.filled_sell = 0;
        proof {
            let spot = orders.orders@[index as int].spot;
            assert(spot.buy_order_ids.deep_view() =~= Seq::<Seq<char>>::empty());
            assert(spot.sell_order_ids.deep_view() =~= Seq::<Seq<char>>::empty());
            assert(orders.orders@[index as int]@ =~= cleaned(old(orders)@[index as int]));
            assert(orders@ =~= after_step(old(orders)@, TableStep::Cleaned { index }));
        }
    } else {
        assert(orders@ =~= old(orders)@);
    }
}

} // verus!
