//! What holds of every slot table the bot can reach, and of every pass of
//! the reconciler.

use vstd::prelude::*;
use crate::amount::{Price, Quantity};
use crate::logic::levels::{
    has_level_at,
    lemma_level_index,
    lemma_strike_len,
    lemma_strike_level,
    level_index,
    strike_level,
};
use crate::logic::reconcile::{
    active_split,
    best_levels,
    frozen_levels,
    not_frozen,
    pair_count,
    placement_for,
    planned_buys,
    reconcile_buys,
    reconcile_split,
    slot_indices,
    BuyPlacement,
    BEST_LEVELS,
};
use crate::logic::steps::{after_step, step_allowed, step_index, TableStep};
use crate::state::orderbook::{distinct_prices, strictly_descending, OrderbookLevel};
use crate::state::orders::{
    bids_distinct,
    fresh_slot,
    price_held_elsewhere,
    table_wf,
    SlotView,
    SLOT_COUNT,
};

verus! {

/// The table every run starts from: four fresh slots.
pub open spec fn initial_table() -> Seq<SlotView> {
    Seq::new(SLOT_COUNT as nat, |i: int| fresh_slot())
}

/// The table after a run of steps from the initial table.
pub open spec fn after_steps(steps: Seq<TableStep>) -> Seq<SlotView>
    decreases steps.len(),
{
    if steps.len() == 0 {
        initial_table()
    } else {
        after_step(after_steps(steps.drop_last()), steps.last())
    }
}

/// Every step of the run is allowed in the table it is taken in.
pub open spec fn steps_allowed(steps: Seq<TableStep>) -> bool
    decreases steps.len(),
{
    steps.len() > 0 ==> steps_allowed(steps.drop_last()) && step_allowed(
        after_steps(steps.drop_last()),
        steps.last(),
    )
}

/// A step keeps the table well formed: four slots, a BUY price exactly
/// where a BUY id is held, a short exactly where its size is positive.
pub proof fn lemma_step_keeps_wf(slots: Seq<SlotView>, step: TableStep)
    requires
        table_wf(slots),
        step is ShortOpened ==> step->order.size > 0,
    ensures
        table_wf(after_step(slots, step)),
{
    let next = after_step(slots, step);
    let i = step_index(step) as int;
    if i < slots.len() {
        assert(slots[i].wf());
        assert forall|k: int| 0 <= k < next.len() implies (#[trigger] next[k]).wf() by {
            if k != i {
                assert(next[k] == slots[k]);
                assert(slots[k].wf());
            }
        }
    }
}

/// A step keeps the BUY prices of the slots distinct, provided that a BUY
/// is booked only at a price at which no other slot bids.
pub proof fn lemma_step_keeps_bids_distinct(slots: Seq<SlotView>, step: TableStep)
    requires
        bids_distinct(slots),
        step matches TableStep::BuyPlaced { buy, .. } ==> !price_held_elsewhere(
            slots,
            buy.index as int,
            buy.price,
        ),
    ensures
        bids_distinct(after_step(slots, step)),
{
    let next = after_step(slots, step);
    let i = step_index(step) as int;
    if i < slots.len() {
        assert forall|a: int, b: int|
            0 <= a < next.len() && 0 <= b < next.len() && a != b
                && next[a].spot.bid_price is Some implies next[a].spot.bid_price
            != next[b].spot.bid_price by {
            if a != i && b != i {
                assert(next[a] == slots[a] && next[b] == slots[b]);
            } else if a == i {
                assert(next[b] == slots[b]);
                if step is BuyPlaced {
                    if next[b].spot.bid_price == next[a].spot.bid_price {
                        assert(slots[b].spot.bid_price == Some(step->buy.price));
                    }
                }
            } else {
                assert(next[a] == slots[a]);
                if step is BuyPlaced {
                    if next[b].spot.bid_price == next[a].spot.bid_price {
                        assert(slots[a].spot.bid_price == Some(step->buy.price));
                    }
                }
            }
        }
    }
}

/// Whatever allowed steps are taken from the initial table, in whatever
/// order: the table has exactly four slots, each slot has a BUY price
/// exactly when it holds a BUY id and an open short exactly when its size
/// is positive, and no two slots bid at the same price.
pub proof fn lemma_reachable_tables(steps: Seq<TableStep>)
    requires
        steps_allowed(steps),
    ensures
        after_steps(steps).len() == SLOT_COUNT,
        table_wf(after_steps(steps)),
        bids_distinct(after_steps(steps)),
    decreases steps.len(),
{
    if steps.len() == 0 {
        assert forall|i: int| 0 <= i < initial_table().len() implies (
        #[trigger] initial_table()[i]).wf() by {}
    } else {
        lemma_reachable_tables(steps.drop_last());
        lemma_step_keeps_wf(after_steps(steps.drop_last()), steps.last());
        lemma_step_keeps_bids_distinct(after_steps(steps.drop_last()), steps.last());
    }
}

/// The best bids of a side that descends strictly: no two share a price,
/// and there are four of them as soon as the side has four levels.
pub proof fn lemma_best_levels_of_descending_side(bids: Seq<OrderbookLevel>)
    requires
        strictly_descending(bids),
    ensures
        distinct_prices(best_levels(bids)),
        bids.len() >= BEST_LEVELS ==> best_levels(bids).len() == BEST_LEVELS,
{
    let best = best_levels(bids);
    assert forall|i: int, j: int|
        0 <= i < best.len() && 0 <= j < best.len() && i != j implies best[i].price
        != best[j].price by {
        assert(best[i] == bids[i] && best[j] == bids[j]);
        if i < j {
            assert(bids[i].price > bids[j].price);
        } else {
            assert(bids[j].price > bids[i].price);
        }
    }
}

/// A full cycle on one slot leaves its spot side empty: whatever BUY was
/// booked on it, whatever was filled and whatever SELL was placed, once the
/// slot is cleaned it holds no price, no id and no fill. Its target and its
/// hedge are as they were, and so is every other slot.
pub proof fn lemma_cycle_ends_empty(
    slots: Seq<SlotView>,
    buy: BuyPlacement,
    buy_id: Seq<char>,
    sell_id: Seq<char>,
    quantity: Quantity,
)
    requires
        buy.index < slots.len(),
    ensures
        ({
            let index = buy.index;
            let placed = after_step(slots, TableStep::BuyPlaced { buy, order_id: buy_id });
            let bought = after_step(placed, TableStep::BuyFilled { index, quantity });
            let paired = after_step(bought, TableStep::SellPlaced { index, order_id: sell_id });
            let sold = after_step(paired, TableStep::SellFilled { index, quantity });
            let done = after_step(sold, TableStep::Cleaned { index });
            &&& done.len() == slots.len()
            &&& done[index as int].spot.is_empty()
            &&& done[index as int].amount_target == slots[index as int].amount_target
            &&& done[index as int].has_open_short == slots[index as int].has_open_short
            &&& done[index as int].size_position == slots[index as int].size_position
            &&& forall|k: int| 0 <= k < slots.len() && k != index ==> done[k] == slots[k]
        }),
{
}

/// Number of frozen slots.
pub open spec fn frozen_count(slots: Seq<SlotView>) -> nat
    decreases slots.len(),
{
    if slots.len() == 0 {
        0
    } else {
        frozen_count(slots.drop_last()) + if slots.last().is_frozen() {
            1nat
        } else {
            0nat
        }
    }
}

/// Each entry is smaller than the next.
pub open spec fn ascending(indices: Seq<usize>) -> bool {
    forall|a: int, b: int| 0 <= a < b < indices.len() ==> indices[a] < indices[b]
}

/// The first `m` slot indices without the frozen ones: they ascend, they
/// are the unfrozen slots below `m`, and there are as many as those.
pub proof fn lemma_unfrozen_indices(slots: Seq<SlotView>, m: nat)
    requires
        m <= slots.len(),
        m <= usize::MAX,
    ensures
        ({
            let kept = slot_indices(m).filter(not_frozen(slots));
            &&& forall|k: int|
                0 <= k < kept.len() ==> (#[trigger] kept[k]) < m && !slots[kept[k] as int].is_frozen()
            &&& forall|i: usize| i < m && !slots[i as int].is_frozen() ==> kept.contains(i)
            &&& ascending(kept)
            &&& kept.len() + frozen_count(slots.take(m as int)) == m
        }),
    decreases m,
{
    reveal(Seq::filter);
    if m > 0 {
        lemma_unfrozen_indices(slots, (m - 1) as nat);
        let all = slot_indices(m);
        let before = slot_indices((m - 1) as nat).filter(not_frozen(slots));
        let kept = all.filter(not_frozen(slots));
        let last = (m - 1) as usize;
        assert(all.drop_last() =~= slot_indices((m - 1) as nat));
        assert(all.last() == last);
        assert(slots.take(m as int).drop_last() =~= slots.take(m - 1));
        assert(slots.take(m as int).last() == slots[m - 1]);
        assert(not_frozen(slots)(last) == !slots[m - 1].is_frozen());
        if !slots[m - 1].is_frozen() {
            assert(kept == before.push(last));
            assert(kept[kept.len() - 1] == last);
        } else {
            assert(kept == before);
        }
        assert forall|i: usize| i < m && !slots[i as int].is_frozen() implies kept.contains(
            i,
        ) by {
            if i < m - 1 {
                assert(before.contains(i));
                let k = choose|k: int| 0 <= k < before.len() && before[k] == i;
                assert(kept[k] == i);
            } else {
                assert(kept[kept.len() - 1] == i);
            }
        }
    } else {
        assert(slots.take(0).len() == 0);
    }
}

/// The first phase strikes one level for each frozen slot, as long as
/// levels are left.
pub proof fn lemma_frozen_levels_len(slots: Seq<SlotView>, levels: Seq<OrderbookLevel>)
    ensures
        frozen_levels(slots, levels).len() == if frozen_count(slots) <= levels.len() {
            levels.len() - frozen_count(slots)
        } else {
            0
        },
    decreases slots.len(),
{
    if slots.len() > 0 {
        lemma_frozen_levels_len(slots.drop_last(), levels);
        if slots.last().is_frozen() {
            lemma_strike_len(
                frozen_levels(slots.drop_last(), levels),
                slots.last().spot.bid_price->0,
            );
        }
    }
}

/// Whether the second phase, having dealt with the candidates before the
/// last, finds the last one's BUY price among the levels that are left.
pub open spec fn last_is_matched(
    slots: Seq<SlotView>,
    candidates: Seq<usize>,
    levels: Seq<OrderbookLevel>,
) -> bool {
    let c = candidates.last();
    &&& candidates.len() > 0
    &&& c < slots.len()
    &&& slots[c as int].spot.bid_price is Some
    &&& level_index(
        active_split(slots, candidates.drop_last(), levels).levels,
        slots[c as int].spot.bid_price->0,
    ) is Some
}

/// One step of the second phase: the last candidate either leaves as
/// matched, taking one level with it, or stays.
pub proof fn lemma_active_split_step(
    slots: Seq<SlotView>,
    candidates: Seq<usize>,
    levels: Seq<OrderbookLevel>,
)
    requires
        candidates.len() > 0,
    ensures
        ({
            let before = active_split(slots, candidates.drop_last(), levels);
            let split = active_split(slots, candidates, levels);
            let c = candidates.last();
            if last_is_matched(slots, candidates, levels) {
                &&& split.candidates == before.candidates
                &&& split.matched == before.matched.push(c)
                &&& split.stale == before.stale
                &&& split.levels.len() == before.levels.len() - 1
            } else {
                &&& split.candidates == before.candidates.push(c)
                &&& split.matched == before.matched
                &&& split.stale == before.stale || split.stale == before.stale.push(c)
                &&& split.levels == before.levels
            }
        }),
{
    let before = active_split(slots, candidates.drop_last(), levels);
    let c = candidates.last();
    if c < slots.len() && slots[c as int].spot.bid_price is Some {
        lemma_level_index(before.levels, slots[c as int].spot.bid_price->0);
    }
}

/// The second phase sorts each candidate either among those that stay or
/// among the matched, and each matched one takes one level away.
pub proof fn lemma_active_split_partition(
    slots: Seq<SlotView>,
    candidates: Seq<usize>,
    levels: Seq<OrderbookLevel>,
)
    requires
        ascending(candidates),
    ensures
        ({
            let split = active_split(slots, candidates, levels);
            &&& ascending(split.candidates)
            &&& ascending(split.matched)
            &&& split.candidates.len() + split.matched.len() == candidates.len()
            &&& split.levels.len() + split.matched.len() == levels.len()
            &&& forall|x: usize|
                split.candidates.contains(x) ==> candidates.contains(x) && !split.matched.contains(
                    x,
                )
            &&& forall|x: usize| split.matched.contains(x) ==> candidates.contains(x)
            &&& forall|x: usize|
                candidates.contains(x) ==> split.candidates.contains(x) || split.matched.contains(
                    x,
                )
            &&& forall|x: usize| split.stale.contains(x) ==> split.candidates.contains(x)
        }),
    decreases candidates.len(),
{
    let split = active_split(slots, candidates, levels);
    if candidates.len() == 0 {
        assert(split.candidates.len() == 0 && split.matched.len() == 0 && split.stale.len() == 0);
        assert(split.levels == levels);
    } else {
        let front = candidates.drop_last();
        let c = candidates.last();
        let before = active_split(slots, front, levels);
        assert(candidates =~= front.push(c));
        assert forall|a: int, b: int| 0 <= a < b < front.len() implies front[a] < front[b] by {
            assert(front[a] == candidates[a] && front[b] == candidates[b]);
        }
        lemma_active_split_partition(slots, front, levels);
        lemma_active_split_step(slots, candidates, levels);
        // every earlier candidate is smaller than this one
        assert forall|x: usize| front.contains(x) implies x < c by {
            let k = choose|k: int| 0 <= k < front.len() && front[k] == x;
            assert(candidates[k] == x);
            assert(candidates[k] < candidates[candidates.len() - 1]);
        }
        assert forall|x: usize| before.candidates.contains(x) implies x < c by {
            assert(front.contains(x));
        }
        assert forall|x: usize| before.matched.contains(x) implies x < c by {
            assert(front.contains(x));
        }
        assert forall|x: usize| candidates.contains(x) <==> front.contains(x) || x == c by {
            lemma_contains_push(front, c, x);
        }
        if last_is_matched(slots, candidates, levels) {
            lemma_push_ascending(before.matched, c);
            assert forall|x: usize| split.matched.contains(x) <==> before.matched.contains(x) || x
                == c by {
                lemma_contains_push(before.matched, c, x);
            }
            assert forall|x: usize| split.candidates.contains(x) implies candidates.contains(x)
                && !split.matched.contains(x) by {
                assert(before.candidates.contains(x));
                assert(front.contains(x));
                assert(x < c);
                assert(!before.matched.contains(x));
            }
            assert forall|x: usize| split.matched.contains(x) implies candidates.contains(x) by {
                if x != c {
                    assert(before.matched.contains(x));
                    assert(front.contains(x));
                }
            }
            assert forall|x: usize| candidates.contains(x) implies split.candidates.contains(x)
                || split.matched.contains(x) by {
                if x != c {
                    assert(front.contains(x));
                    assert(before.candidates.contains(x) || before.matched.contains(x));
                }
            }
            assert forall|x: usize| split.stale.contains(x) implies split.candidates.contains(
                x,
            ) by {
                assert(before.stale.contains(x));
            }
        } else {
            lemma_push_ascending(before.candidates, c);
            assert forall|x: usize| split.candidates.contains(x) <==> before.candidates.contains(x)
                || x == c by {
                lemma_contains_push(before.candidates, c, x);
            }
            assert forall|x: usize| split.candidates.contains(x) implies candidates.contains(x)
                && !split.matched.contains(x) by {
                if x == c {
                    if before.matched.contains(x) {
                        assert(x < c);
                    }
                } else {
                    assert(before.candidates.contains(x));
                    assert(front.contains(x));
                    assert(!before.matched.contains(x));
                }
            }
            assert forall|x: usize| split.matched.contains(x) implies candidates.contains(x) by {
                assert(before.matched.contains(x));
                assert(front.contains(x));
            }
            assert forall|x: usize| candidates.contains(x) implies split.candidates.contains(x)
                || split.matched.contains(x) by {
                if x != c {
                    assert(front.contains(x));
                    assert(before.candidates.contains(x) || before.matched.contains(x));
                }
            }
            assert forall|x: usize| split.stale.contains(x) implies split.candidates.contains(
                x,
            ) by {
                lemma_contains_push(before.stale, c, x);
                if x != c {
                    assert(before.stale.contains(x));
                    assert(before.candidates.contains(x));
                }
            }
        }
    }
}

/// What a sequence contains after a push.
pub proof fn lemma_contains_push(s: Seq<usize>, last: usize, x: usize)
    ensures
        s.push(last).contains(x) <==> s.contains(x) || x == last,
{
    let pushed = s.push(last);
    if s.contains(x) {
        let k = choose|k: int| 0 <= k < s.len() && s[k] == x;
        assert(pushed[k] == x);
    }
    if x == last {
        assert(pushed[s.len() as int] == x);
    }
    if pushed.contains(x) {
        let k = choose|k: int| 0 <= k < pushed.len() && pushed[k] == x;
        if k < s.len() {
            assert(s[k] == x);
        }
    }
}

/// Pushing an entry larger than all others keeps a sequence ascending.
pub proof fn lemma_push_ascending(s: Seq<usize>, last: usize)
    requires
        ascending(s),
        forall|x: usize| s.contains(x) ==> x < last,
    ensures
        ascending(s.push(last)),
{
    let pushed = s.push(last);
    assert forall|a: int, b: int| 0 <= a < b < pushed.len() implies pushed[a] < pushed[b] by {
        assert(s.contains(s[a]));
        if b < s.len() {
            assert(pushed[a] == s[a] && pushed[b] == s[b]);
        }
    }
}

/// After the first two phases of a pass over four slots and four best bids:
/// every slot is either still a candidate, or frozen, or matched with a
/// level, and only one of the three; and there are exactly as many
/// candidates left as there are levels left.
pub proof fn lemma_reconcile_partition(slots: Seq<SlotView>, bids: Seq<OrderbookLevel>)
    requires
        slots.len() == SLOT_COUNT,
        bids.len() == BEST_LEVELS,
    ensures
        ({
            let split = reconcile_split(slots, bids);
            &&& forall|i: usize|
                i < SLOT_COUNT ==> split.candidates.contains(i) || split.matched.contains(i)
                    || slots[i as int].is_frozen()
            &&& forall|i: usize|
                split.candidates.contains(i) ==> i < SLOT_COUNT && !split.matched.contains(i)
                    && !slots[i as int].is_frozen()
            &&& forall|i: usize|
                split.matched.contains(i) ==> i < SLOT_COUNT && !slots[i as int].is_frozen()
            &&& split.candidates.no_duplicates()
            &&& split.matched.no_duplicates()
            &&& split.candidates.len() == split.levels.len()
        }),
{
    let first = slot_indices(SLOT_COUNT as nat).filter(not_frozen(slots));
    let levels = frozen_levels(slots, bids);
    let split = reconcile_split(slots, bids);
    lemma_unfrozen_indices(slots, SLOT_COUNT as nat);
    assert(slots.take(SLOT_COUNT as int) =~= slots);
    lemma_frozen_levels_len(slots, bids);
    lemma_frozen_count_bound(slots);
    lemma_active_split_partition(slots, first, levels);
    assert forall|x: usize| first.contains(x) implies x < SLOT_COUNT && !slots[x as int].is_frozen() by {
        let k = choose|k: int| 0 <= k < first.len() && first[k] == x;
        assert(first[k] < SLOT_COUNT);
    }
    lemma_ascending_no_duplicates(split.candidates);
    lemma_ascending_no_duplicates(split.matched);
    assert forall|i: usize| i < SLOT_COUNT implies split.candidates.contains(i)
        || split.matched.contains(i) || slots[i as int].is_frozen() by {
        if !slots[i as int].is_frozen() {
            assert(first.contains(i));
        }
    }
    assert forall|i: usize| split.candidates.contains(i) implies i < SLOT_COUNT
        && !split.matched.contains(i) && !slots[i as int].is_frozen() by {
        assert(first.contains(i));
    }
    assert forall|i: usize| split.matched.contains(i) implies i < SLOT_COUNT
        && !slots[i as int].is_frozen() by {
        assert(first.contains(i));
    }
}

/// An ascending sequence holds no entry twice.
pub proof fn lemma_ascending_no_duplicates(s: Seq<usize>)
    requires
        ascending(s),
    ensures
        s.no_duplicates(),
{
    assert forall|i: int, j: int| 0 <= i < s.len() && 0 <= j < s.len() && i != j implies s[i]
        != s[j] by {
        if i < j {
            assert(s[i] < s[j]);
        } else {
            assert(s[j] < s[i]);
        }
    }
}

/// There are no more frozen slots than slots.
pub proof fn lemma_frozen_count_bound(slots: Seq<SlotView>)
    ensures
        frozen_count(slots) <= slots.len(),
    decreases slots.len(),
{
    if slots.len() > 0 {
        lemma_frozen_count_bound(slots.drop_last());
    }
}

/// After the first phase no level is left at the BUY price of a frozen
/// slot, given that no two levels shared a price; no price comes in that
/// was not there, and prices stay distinct.
pub proof fn lemma_frozen_levels_clear(slots: Seq<SlotView>, levels: Seq<OrderbookLevel>)
    requires
        distinct_prices(levels),
    ensures
        ({
            let left = frozen_levels(slots, levels);
            &&& distinct_prices(left)
            &&& forall|i: int|
                0 <= i < slots.len() && (#[trigger] slots[i]).is_frozen() ==> !has_level_at(
                    left,
                    slots[i].spot.bid_price->0,
                )
            &&& forall|p: Price| !has_level_at(levels, p) ==> !has_level_at(left, p)
        }),
    decreases slots.len(),
{
    if slots.len() > 0 {
        let front = slots.drop_last();
        lemma_frozen_levels_clear(front, levels);
        let before = frozen_levels(front, levels);
        let left = frozen_levels(slots, levels);
        if slots.last().is_frozen() {
            lemma_strike_level(before, slots.last().spot.bid_price->0);
        }
        assert forall|i: int| 0 <= i < slots.len() && (#[trigger] slots[i]).is_frozen() implies
            !has_level_at(left, slots[i].spot.bid_price->0) by {
            if i < slots.len() - 1 {
                assert(front[i] == slots[i]);
                assert(!has_level_at(before, slots[i].spot.bid_price->0));
            }
        }
        assert forall|p: Price| !has_level_at(levels, p) implies !has_level_at(left, p) by {
            assert(!has_level_at(before, p));
        }
    }
}

/// After the second phase no level is left at the BUY price of a slot that
/// was among the candidates, given that no two levels shared a price; no
/// price comes in that was not there, and prices stay distinct.
pub proof fn lemma_active_split_clear(
    slots: Seq<SlotView>,
    candidates: Seq<usize>,
    levels: Seq<OrderbookLevel>,
)
    requires
        distinct_prices(levels),
    ensures
        ({
            let left = active_split(slots, candidates, levels).levels;
            &&& distinct_prices(left)
            &&& forall|k: int|
                0 <= k < candidates.len() && (#[trigger] candidates[k]) < slots.len()
                    && slots[candidates[k] as int].spot.bid_price is Some ==> !has_level_at(
                    left,
                    slots[candidates[k] as int].spot.bid_price->0,
                )
            &&& forall|p: Price| !has_level_at(levels, p) ==> !has_level_at(left, p)
        }),
    decreases candidates.len(),
{
    if candidates.len() > 0 {
        let front = candidates.drop_last();
        let c = candidates.last();
        lemma_active_split_clear(slots, front, levels);
        let before = active_split(slots, front, levels).levels;
        let left = active_split(slots, candidates, levels).levels;
        if c < slots.len() && slots[c as int].spot.bid_price is Some {
            let price = slots[c as int].spot.bid_price->0;
            lemma_level_index(before, price);
            if level_index(before, price) is Some {
                assert(left == strike_level(before, price));
                lemma_strike_level(before, price);
            }
        }
        assert forall|k: int|
            0 <= k < candidates.len() && (#[trigger] candidates[k]) < slots.len()
                && slots[candidates[k] as int].spot.bid_price is Some implies !has_level_at(
            left,
            slots[candidates[k] as int].spot.bid_price->0,
        ) by {
            if k < candidates.len() - 1 {
                assert(front[k] == candidates[k]);
                assert(!has_level_at(before, slots[candidates[k] as int].spot.bid_price->0));
            }
        }
        assert forall|p: Price| !has_level_at(levels, p) implies !has_level_at(left, p) by {
            assert(!has_level_at(before, p));
        }
    }
}

/// Where every candidate names a slot, the planned BUYs are the pairs of
/// candidate and level, position by position.
pub proof fn lemma_planned_buys_by_position(
    slots: Seq<SlotView>,
    tick_size: Price,
    candidates: Seq<usize>,
    levels: Seq<OrderbookLevel>,
    n: nat,
)
    requires
        n <= pair_count(candidates, levels),
        forall|k: int| 0 <= k < candidates.len() ==> candidates[k] < slots.len(),
    ensures
        planned_buys(slots, tick_size, candidates, levels, n).len() == n,
        forall|k: int|
            0 <= k < n ==> #[trigger] planned_buys(slots, tick_size, candidates, levels, n)[k]
                == placement_for(
                slots[candidates[k] as int],
                candidates[k],
                levels[k],
                tick_size,
            ),
    decreases n,
{
    if n > 0 {
        lemma_planned_buys_by_position(slots, tick_size, candidates, levels, (n - 1) as nat);
    }
}

/// The BUYs that a pass plans, given four slots and best bids of which no
/// two share a price: each goes to a slot that is not frozen, at a price at
/// which no slot of the table bids; and no two of them go to the same slot
/// or to the same price.
pub proof fn lemma_planned_buys_are_free(
    slots: Seq<SlotView>,
    bids: Seq<OrderbookLevel>,
    tick_size: Price,
)
    requires
        slots.len() == SLOT_COUNT,
        distinct_prices(bids),
    ensures
        ({
            let buys = reconcile_buys(slots, bids, tick_size);
            &&& forall|k: int|
                0 <= k < buys.len() ==> (#[trigger] buys[k]).index < SLOT_COUNT
                    && !slots[buys[k].index as int].is_frozen()
            &&& forall|k: int, i: int|
                0 <= k < buys.len() && 0 <= i < slots.len() ==> (#[trigger] slots[i]).spot.bid_price
                    != Some((#[trigger] buys[k]).price)
            &&& forall|a: int, b: int|
                0 <= a < b < buys.len() ==> buys[a].price != buys[b].price && buys[a].index
                    < buys[b].index
        }),
{
    let first = slot_indices(SLOT_COUNT as nat).filter(not_frozen(slots));
    let thawed = frozen_levels(slots, bids);
    let split = reconcile_split(slots, bids);
    let buys = reconcile_buys(slots, bids, tick_size);
    let n = pair_count(split.candidates, split.levels);
    lemma_unfrozen_indices(slots, SLOT_COUNT as nat);
    lemma_frozen_levels_clear(slots, bids);
    lemma_active_split_partition(slots, first, thawed);
    lemma_active_split_clear(slots, first, thawed);
    assert forall|x: usize| first.contains(x) implies x < SLOT_COUNT && !slots[x as int].is_frozen() by {
        let k = choose|k: int| 0 <= k < first.len() && first[k] == x;
        assert(first[k] < SLOT_COUNT);
    }
    assert forall|k: int| 0 <= k < split.candidates.len() implies split.candidates[k]
        < slots.len() && !slots[split.candidates[k] as int].is_frozen() by {
        assert(split.candidates.contains(split.candidates[k]));
        assert(first.contains(split.candidates[k]));
    }
    lemma_planned_buys_by_position(slots, tick_size, split.candidates, split.levels, n);
    // no slot bids at a level that is left
    assert forall|i: int| 0 <= i < slots.len() && slots[i].spot.bid_price is Some implies
        !has_level_at(split.levels, slots[i].spot.bid_price->0) by {
        let price = slots[i].spot.bid_price->0;
        if slots[i].is_frozen() {
            assert(!has_level_at(thawed, price));
        } else {
            assert(first.contains(i as usize));
            let k = choose|k: int| 0 <= k < first.len() && first[k] == i as usize;
            assert(first[k] < slots.len());
        }
    }
    assert forall|k: int, i: int| 0 <= k < buys.len() && 0 <= i < slots.len() implies (
    #[trigger] slots[i]).spot.bid_price != Some((#[trigger] buys[k]).price) by {
        if slots[i].spot.bid_price == Some(buys[k].price) {
            assert(split.levels[k].price == buys[k].price);
            assert(has_level_at(split.levels, buys[k].price));
        }
    }
    assert forall|a: int, b: int| 0 <= a < b < buys.len() implies buys[a].price != buys[b].price
        && buys[a].index < buys[b].index by {
        assert(split.levels[a].price != split.levels[b].price);
        assert(split.candidates[a] < split.candidates[b]);
    }
}

/// The table after the first `n` of `buys` were booked one after the other,
/// the `k`-th under the id `ids[k]`.
pub open spec fn after_buys(
    slots: Seq<SlotView>,
    buys: Seq<BuyPlacement>,
    ids: Seq<Seq<char>>,
    n: nat,
) -> Seq<SlotView>
    decreases n,
{
    if n == 0 {
        slots
    } else {
        after_step(
            after_buys(slots, buys, ids, (n - 1) as nat),
            TableStep::BuyPlaced { buy: buys[n - 1], order_id: ids[n - 1] },
        )
    }
}

/// A BUY price found in the table after some BUYs were booked is a BUY
/// price of the table before, or the price of one of those BUYs.
pub proof fn lemma_bids_after_buys(
    slots: Seq<SlotView>,
    buys: Seq<BuyPlacement>,
    ids: Seq<Seq<char>>,
    n: nat,
)
    requires
        n <= buys.len(),
    ensures
        after_buys(slots, buys, ids, n).len() == slots.len(),
        forall|i: int|
            0 <= i < slots.len() && (#[trigger] after_buys(
                slots,
                buys,
                ids,
                n,
            )[i]).spot.bid_price is Some ==> after_buys(slots, buys, ids, n)[i].spot.bid_price
                == slots[i].spot.bid_price || exists|j: int|
                0 <= j < n && after_buys(slots, buys, ids, n)[i].spot.bid_price == Some(
                    (#[trigger] buys[j]).price,
                ),
    decreases n,
{
    if n > 0 {
        lemma_bids_after_buys(slots, buys, ids, (n - 1) as nat);
        let before = after_buys(slots, buys, ids, (n - 1) as nat);
        let now = after_buys(slots, buys, ids, n);
        let buy = buys[n - 1];
        assert forall|i: int|
            0 <= i < slots.len() && (#[trigger] now[i]).spot.bid_price is Some implies now[i].spot.bid_price
            == slots[i].spot.bid_price || exists|j: int|
            0 <= j < n && now[i].spot.bid_price == Some((#[trigger] buys[j]).price) by {
            if buy.index < before.len() && i == buy.index {
                assert(now[i].spot.bid_price == Some(buys[n - 1].price));
            } else {
                assert(now[i] == before[i]);
                if before[i].spot.bid_price != slots[i].spot.bid_price {
                    let j = choose|j: int|
                        0 <= j < n - 1 && before[i].spot.bid_price == Some(
                            (#[trigger] buys[j]).price,
                        );
                    assert(now[i].spot.bid_price == Some(buys[j].price));
                }
            }
        }
    }
}

/// Booking the BUYs that a pass planned, one after the other and in their
/// order, never puts two slots on one price: each booking is an allowed
/// step, and the table stays well formed with distinct BUY prices. The
/// table before the pass is well formed with distinct BUY prices, and no
/// two of the best bids share a price.
pub proof fn lemma_booking_planned_buys(
    slots: Seq<SlotView>,
    bids: Seq<OrderbookLevel>,
    tick_size: Price,
    ids: Seq<Seq<char>>,
    n: nat,
)
    requires
        table_wf(slots),
        bids_distinct(slots),
        distinct_prices(bids),
        n <= reconcile_buys(slots, bids, tick_size).len(),
    ensures
        table_wf(after_buys(slots, reconcile_buys(slots, bids, tick_size), ids, n)),
        bids_distinct(after_buys(slots, reconcile_buys(slots, bids, tick_size), ids, n)),
        n > 0 ==> step_allowed(
            after_buys(slots, reconcile_buys(slots, bids, tick_size), ids, (n - 1) as nat),
            TableStep::BuyPlaced {
                buy: reconcile_buys(slots, bids, tick_size)[n - 1],
                order_id: ids[n - 1],
            },
        ),
    decreases n,
{
    if n > 0 {
        let buys = reconcile_buys(slots, bids, tick_size);
        let before = after_buys(slots, buys, ids, (n - 1) as nat);
        let buy = buys[n - 1];
        let step = TableStep::BuyPlaced { buy, order_id: ids[n - 1] };
        lemma_booking_planned_buys(slots, bids, tick_size, ids, (n - 1) as nat);
        lemma_planned_buys_are_free(slots, bids, tick_size);
        lemma_bids_after_buys(slots, buys, ids, (n - 1) as nat);
        assert(!price_held_elsewhere(before, buy.index as int, buy.price)) by {
            if price_held_elsewhere(before, buy.index as int, buy.price) {
                let k = choose|k: int|
                    0 <= k < before.len() && k != buy.index as int && before[k].spot.bid_price
                        == Some(buy.price);
                if before[k].spot.bid_price == slots[k].spot.bid_price {
                    assert(slots[k].spot.bid_price != Some(buys[n - 1].price));
                } else {
                    let j = choose|j: int|
                        0 <= j < n - 1 && before[k].spot.bid_price == Some(
                            (#[trigger] buys[j]).price,
                        );
                    assert(buys[j].price != buys[n - 1].price);
                }
            }
        }
        lemma_step_keeps_wf(before, step);
        lemma_step_keeps_bids_distinct(before, step);
    }
}

} // verus!
