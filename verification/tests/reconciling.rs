use hedgemaker::amount::SCALE;
use hedgemaker::logic::levels::{find_level, is_in_levels, lowest_level, strike};
use hedgemaker::logic::reconcile::{
    clean_order_ids, first_levels, get_best_bid_and_ask, record_buy_order, BuyPlacement,
    CleanOrder, EvaluateBuyOrders, FillMissingBestBids, ProcessActiveBuyOrders,
    ProcessFrozenBlocks, Requeue,
};
use hedgemaker::state::asset::AssetState;
use hedgemaker::state::orderbook::{OrderbookLevel, OrderbookState};
use hedgemaker::state::orders::OrdersState;

const TICK: u64 = 10_000;
const P10002: u64 = 100_020_000;
const P10001: u64 = 100_010_000;
const P10000: u64 = 100_000_000;
const P09999: u64 = 99_990_000;
const P09998: u64 = 99_980_000;
const P09997: u64 = 99_970_000;
const P09996: u64 = 99_960_000;

fn levels(prices: &[u64]) -> Vec<OrderbookLevel> {
    prices.iter().map(|p| OrderbookLevel::new(*p, 10 * SCALE)).collect()
}

fn prices(levels: &[OrderbookLevel]) -> Vec<u64> {
    levels.iter().map(|l| l.price).collect()
}

fn book(bids: &[u64], asks: &[u64]) -> OrderbookState {
    OrderbookState { bids: levels(bids), asks: levels(asks) }
}

fn table_with_bids(bids: [Option<u64>; 4]) -> OrdersState {
    let mut orders = OrdersState::new();
    for (i, bid) in bids.iter().enumerate() {
        if let Some(bid) = bid {
            orders.orders[i].spot.bid_price = Some(*bid);
            orders.orders[i].spot.ask_price = Some(*bid + TICK);
            orders.orders[i].spot.buy_order_ids.push(format!("{}", 100 + i));
        }
    }
    orders
}

fn buy(index: usize, price: u64) -> BuyPlacement {
    BuyPlacement { index, price, quantity: 500 * SCALE, ask_price: price + TICK }
}

#[test]
fn best_levels_are_the_first_four() {
    let state = book(
        &[P10000, P09999, P09998, P09997, P09996],
        &[P10001, P10002],
    );
    let (bids, asks) = get_best_bid_and_ask(&state);
    assert_eq!(prices(&bids), vec![P10000, P09999, P09998, P09997]);
    assert_eq!(prices(&asks), vec![P10001, P10002]);
    assert_eq!(first_levels(&Vec::new()).len(), 0);
}

#[test]
fn level_search() {
    let side = levels(&[P10000, P09999, P09998]);
    assert_eq!(find_level(&side, P09999), Some(1));
    assert_eq!(find_level(&side, P09997), None);
    assert!(is_in_levels(&side, P09998));
    assert!(!is_in_levels(&side, P10001));
    assert_eq!(lowest_level(&side), 2);
    assert_eq!(lowest_level(&levels(&[5, 3, 9, 3, 7])), 3);
    assert_eq!(find_level(&levels(&[5, 3, 9, 3, 7]), 3), Some(1));
}

#[test]
fn strike_takes_the_matching_level_or_the_lowest() {
    let mut side = levels(&[P10000, P09999, P09998]);
    strike(&mut side, P09999);
    assert_eq!(prices(&side), vec![P10000, P09998]);
    strike(&mut side, P10002);
    assert_eq!(prices(&side), vec![P10000]);
    strike(&mut side, P10002);
    assert_eq!(prices(&side), Vec::<u64>::new());
    strike(&mut side, P10002);
    assert_eq!(prices(&side), Vec::<u64>::new());
}

#[test]
fn cold_start() {
    let orders = OrdersState::new();
    let asset = AssetState::new();
    let state = book(&[P10000, P09999, P09998, P09997], &[P10001]);
    let plan = EvaluateBuyOrders(&orders, &state, &asset);
    assert_eq!(plan.requeue, Vec::<usize>::new());
    assert_eq!(plan.stale, Vec::<usize>::new());
    assert_eq!(
        plan.placements,
        vec![
            BuyPlacement { index: 0, price: P10000, quantity: 500 * SCALE, ask_price: P10001 },
            BuyPlacement { index: 1, price: P09999, quantity: 500 * SCALE, ask_price: P10000 },
            BuyPlacement { index: 2, price: P09998, quantity: 500 * SCALE, ask_price: P09999 },
            BuyPlacement { index: 3, price: P09997, quantity: 500 * SCALE, ask_price: P09998 },
        ]
    );
    let mut orders = orders;
    for (k, placement) in plan.placements.iter().enumerate() {
        record_buy_order(&mut orders, *placement, format!("{}", 9000 + k));
    }
    assert_eq!(orders.orders[0].spot.bid_price, Some(P10000));
    assert_eq!(orders.orders[0].spot.ask_price, Some(P10001));
    assert_eq!(orders.orders[1].spot.bid_price, Some(P09999));
    assert_eq!(orders.orders[1].spot.ask_price, Some(P10000));
    assert_eq!(orders.orders[2].spot.bid_price, Some(P09998));
    assert_eq!(orders.orders[2].spot.ask_price, Some(P09999));
    assert_eq!(orders.orders[3].spot.bid_price, Some(P09997));
    assert_eq!(orders.orders[3].spot.ask_price, Some(P09998));
    assert_eq!(orders.orders[2].spot.buy_order_ids, vec!["9002".to_string()]);
    assert!(orders.is_wf());
    assert!(orders.has_distinct_bids());
}

#[test]
fn stale_buy_cancelled() {
    let mut orders = table_with_bids([Some(P10000), Some(P09999), Some(P09998), Some(P09997)]);
    let asset = AssetState::new();
    let state = book(&[P10001, P10000, P09999, P09998], &[P10002]);
    let plan = EvaluateBuyOrders(&orders, &state, &asset);
    assert_eq!(plan.stale, vec![3]);
    assert_eq!(
        plan.placements,
        vec![BuyPlacement { index: 3, price: P10001, quantity: 500 * SCALE, ask_price: P10002 }]
    );
    assert_eq!(clean_order_ids(&orders, 3), vec!["103".to_string()]);
    CleanOrder(&mut orders, 3);
    assert_eq!(orders.orders[3].spot.bid_price, None);
    assert_eq!(orders.orders[3].spot.ask_price, None);
    assert!(orders.orders[3].spot.buy_order_ids.is_empty());
    record_buy_order(&mut orders, plan.placements[0], "777".to_string());
    assert_eq!(orders.orders[3].spot.bid_price, Some(P10001));
    assert_eq!(orders.orders[3].spot.ask_price, Some(P10002));
    assert_eq!(orders.orders[3].spot.buy_order_ids, vec!["777".to_string()]);
    assert!(orders.is_wf());
    assert!(orders.has_distinct_bids());
}

#[test]
fn settled_table_asks_for_nothing() {
    let orders = table_with_bids([Some(P10000), Some(P09999), Some(P09998), Some(P09997)]);
    let state = book(&[P10000, P09999, P09998, P09997], &[P10001]);
    let plan = EvaluateBuyOrders(&orders, &state, &AssetState::new());
    assert!(plan.requeue.is_empty());
    assert!(plan.stale.is_empty());
    assert!(plan.placements.is_empty());
}

#[test]
fn frozen_slot_leaves_candidates_and_takes_its_level() {
    let mut orders = table_with_bids([Some(P10000), None, Some(P09998), None]);
    orders.orders[0].spot.sell_order_ids.push("s1".to_string());
    let bids = levels(&[P10000, P09999, P09998, P09997]);
    let asks = levels(&[P10001]);
    let pass = ProcessFrozenBlocks(&orders, vec![0, 1, 2, 3], &bids, &asks);
    assert_eq!(pass.candidates, vec![1, 2, 3]);
    assert_eq!(prices(&pass.best_bids), vec![P09999, P09998, P09997]);
    assert!(pass.requeue.is_empty());
}

#[test]
fn frozen_slot_off_the_book_takes_the_lowest_level_and_is_marked() {
    let mut orders = table_with_bids([None, Some(P09996), None, None]);
    orders.orders[1].spot.sell_order_ids.push("s1".to_string());
    let bids = levels(&[P10000, P09999, P09998, P09997]);
    let asks = levels(&[P10001, P10002]);
    let pass = ProcessFrozenBlocks(&orders, vec![0, 1, 2, 3], &bids, &asks);
    assert_eq!(pass.candidates, vec![0, 2, 3]);
    assert_eq!(prices(&pass.best_bids), vec![P10000, P09999, P09998]);
    assert_eq!(pass.requeue, vec![1]);
}

#[test]
fn frozen_slot_whose_price_shows_among_the_asks_is_not_marked() {
    let mut orders = table_with_bids([None, None, Some(P10001), None]);
    orders.orders[2].spot.sell_order_ids.push("s1".to_string());
    let bids = levels(&[P10000, P09999, P09998, P09997]);
    let asks = levels(&[P10001, P10002]);
    let pass = ProcessFrozenBlocks(&orders, vec![0, 1, 2, 3], &bids, &asks);
    assert_eq!(pass.candidates, vec![0, 1, 3]);
    assert_eq!(prices(&pass.best_bids), vec![P10000, P09999, P09998]);
    assert!(pass.requeue.is_empty());
}

#[test]
fn slot_with_sell_ids_but_no_bid_is_not_frozen() {
    let mut orders = OrdersState::new();
    orders.orders[0].spot.sell_order_ids.push("s1".to_string());
    let bids = levels(&[P10000]);
    let pass = ProcessFrozenBlocks(&orders, vec![0, 1, 2, 3], &bids, &[]);
    assert_eq!(pass.candidates, vec![0, 1, 2, 3]);
    assert_eq!(prices(&pass.best_bids), vec![P10000]);
}

#[test]
fn frozen_pass_keeps_candidates_that_name_no_slot() {
    let mut orders = table_with_bids([Some(P10000), None, None, None]);
    orders.orders[0].spot.sell_order_ids.push("s1".to_string());
    let pass = ProcessFrozenBlocks(&orders, vec![7, 0, 2], &[], &[]);
    assert_eq!(pass.candidates, vec![7, 2]);
    assert!(pass.best_bids.is_empty());
    assert_eq!(pass.requeue, vec![0]);
}

#[test]
fn active_pass_sorts_candidates() {
    let orders = table_with_bids([Some(P10000), Some(P09996), None, Some(P09998)]);
    let bids = levels(&[P10000, P09999, P09998, P09997]);
    let pass = ProcessActiveBuyOrders(&orders, vec![0, 1, 2, 3], &bids);
    assert_eq!(pass.candidates, vec![1, 2]);
    assert_eq!(pass.stale, vec![1]);
    assert_eq!(prices(&pass.best_bids), vec![P09999, P09997]);
}

#[test]
fn active_pass_keeps_candidates_that_name_no_slot() {
    let orders = OrdersState::new();
    let pass = ProcessActiveBuyOrders(&orders, vec![5, 1], &levels(&[P10000]));
    assert_eq!(pass.candidates, vec![5, 1]);
    assert!(pass.stale.is_empty());
    assert_eq!(prices(&pass.best_bids), vec![P10000]);
}

#[test]
fn level_struck_by_a_frozen_slot_makes_its_holder_stale() {
    // slot 0 is frozen off the book and strikes the lowest level, at which slot 3 rests
    let mut orders = table_with_bids([Some(P09996), None, None, Some(P09997)]);
    orders.orders[0].spot.sell_order_ids.push("s1".to_string());
    let state = book(&[P10000, P09999, P09998, P09997], &[P10001]);
    let plan = EvaluateBuyOrders(&orders, &state, &AssetState::new());
    assert_eq!(plan.requeue, vec![0]);
    assert_eq!(plan.stale, vec![3]);
    assert_eq!(
        plan.placements,
        vec![buy(1, P10000), buy(2, P09999), buy(3, P09998)]
    );
}

#[test]
fn fill_missing_pairs_by_position() {
    let orders = OrdersState::new();
    let asset = AssetState::new();
    let plan = FillMissingBestBids(&orders, &asset, &[2, 0], &levels(&[P10000, P09999, P09998]));
    assert_eq!(plan, vec![buy(2, P10000), buy(0, P09999)]);
    let plan = FillMissingBestBids(&orders, &asset, &[1, 2, 3], &levels(&[P09997]));
    assert_eq!(plan, vec![buy(1, P09997)]);
    let plan = FillMissingBestBids(&orders, &asset, &[], &levels(&[P09997]));
    assert!(plan.is_empty());
}

#[test]
fn fill_missing_passes_over_candidates_that_name_no_slot() {
    let orders = OrdersState::new();
    let asset = AssetState::new();
    let plan = FillMissingBestBids(&orders, &asset, &[4, 1], &levels(&[P10000, P09999]));
    assert_eq!(plan, vec![buy(1, P09999)]);
}

#[test]
fn fill_missing_takes_the_target_of_the_slot() {
    let mut orders = OrdersState::new();
    orders.orders[1].amount_target = 7 * SCALE;
    let plan = FillMissingBestBids(&orders, &AssetState::new(), &[1], &levels(&[P10000]));
    assert_eq!(
        plan,
        vec![BuyPlacement { index: 1, price: P10000, quantity: 7 * SCALE, ask_price: P10001 }]
    );
}

#[test]
fn planned_asks_are_on_the_tick_grid() {
    let orders = OrdersState::new();
    let asset = AssetState { symbol: "ACTUSDT".to_string(), tick_size: 30_000 };
    let state = book(&[P10000, 99_985_000, 99_961_234, 12_345], &[]);
    let plan = EvaluateBuyOrders(&orders, &state, &asset);
    assert_eq!(plan.placements.len(), 4);
    for placement in &plan.placements {
        assert_eq!(placement.ask_price % 30_000, 0);
    }
    assert_eq!(plan.placements[0].ask_price, 100_020_000);
    assert_eq!(plan.placements[3].ask_price, 30_000);
}

#[test]
fn candidates_and_levels_left_are_equally_many() {
    let tables = [
        [None, None, None, None],
        [Some(P10000), None, Some(P09997), None],
        [Some(P09996), Some(P10000), None, Some(P10002)],
        [Some(P10000), Some(P09999), Some(P09998), Some(P09997)],
    ];
    let frozen_sets: [&[usize]; 4] = [&[], &[0], &[0, 3], &[0, 1, 2, 3]];
    let bids = levels(&[P10000, P09999, P09998, P09997]);
    for bid_prices in tables {
        for frozen in frozen_sets {
            let mut orders = table_with_bids(bid_prices);
            for i in frozen {
                orders.orders[*i].spot.sell_order_ids.push("s".to_string());
            }
            let first = ProcessFrozenBlocks(&orders, vec![0, 1, 2, 3], &bids, &[]);
            let second = ProcessActiveBuyOrders(&orders, first.candidates.clone(), &first.best_bids);
            assert_eq!(second.candidates.len(), second.best_bids.len());
            for i in 0..4usize {
                let is_frozen = orders.orders[i].spot.bid_price.is_some()
                    && !orders.orders[i].spot.sell_order_ids.is_empty();
                let is_candidate = second.candidates.contains(&i);
                let was_candidate = first.candidates.contains(&i);
                assert_eq!(was_candidate, !is_frozen);
                if is_candidate {
                    assert!(was_candidate);
                }
            }
        }
    }
}

#[test]
fn fewer_than_four_bids_leave_more_candidates_than_levels() {
    let orders = OrdersState::new();
    let bids = levels(&[P10000, P09999, P09998]);
    let first = ProcessFrozenBlocks(&orders, vec![0, 1, 2, 3], &bids, &[]);
    let second = ProcessActiveBuyOrders(&orders, first.candidates, &first.best_bids);
    assert_eq!(second.candidates, vec![0, 1, 2, 3]);
    assert_eq!(second.best_bids.len(), 3);
}

#[test]
fn booked_buys_keep_bids_distinct() {
    let mut orders = table_with_bids([Some(P10000), None, Some(P09996), None]);
    let state = book(&[P10001, P10000, P09999, P09998], &[P10002]);
    let plan = EvaluateBuyOrders(&orders, &state, &AssetState::new());
    assert_eq!(plan.stale, vec![2]);
    assert_eq!(
        plan.placements,
        vec![buy(1, P10001), buy(2, P09999), buy(3, P09998)]
    );
    CleanOrder(&mut orders, 2);
    for (k, placement) in plan.placements.iter().enumerate() {
        record_buy_order(&mut orders, *placement, format!("b{k}"));
        assert!(orders.has_distinct_bids());
        assert!(orders.is_wf());
    }
}

#[test]
fn booking_a_buy_at_a_held_price_breaks_distinctness() {
    let mut orders = table_with_bids([Some(P10000), None, None, None]);
    record_buy_order(&mut orders, buy(1, P10000), "b".to_string());
    assert!(!orders.has_distinct_bids());
    assert!(orders.is_wf());
}

#[test]
fn booking_a_buy_appends_the_id() {
    let mut orders = table_with_bids([Some(P10000), None, None, None]);
    record_buy_order(&mut orders, buy(0, P09999), "second".to_string());
    assert_eq!(orders.orders[0].spot.bid_price, Some(P09999));
    assert_eq!(orders.orders[0].spot.ask_price, Some(P10000));
    assert_eq!(
        orders.orders[0].spot.buy_order_ids,
        vec!["100".to_string(), "second".to_string()]
    );
    record_buy_order(&mut orders, buy(4, P09998), "nowhere".to_string());
    assert_eq!(orders.orders.len(), 4);
}

#[test]
fn clean_order_resets_the_spot_side_only() {
    let mut orders = table_with_bids([Some(P10000), None, None, None]);
    orders.orders[0].spot.sell_order_ids.push("s1".to_string());
    orders.orders[0].spot.filled_buy = 5;
    orders.orders[0].spot.filled_sell = 3;
    orders.orders[0].has_open_short = true;
    orders.orders[0].size_position = 9;
    assert_eq!(
        clean_order_ids(&orders, 0),
        vec!["100".to_string(), "s1".to_string()]
    );
    assert!(clean_order_ids(&orders, 1).is_empty());
    assert!(clean_order_ids(&orders, 4).is_empty());
    CleanOrder(&mut orders, 0);
    let slot = &orders.orders[0];
    assert_eq!(slot.spot.bid_price, None);
    assert_eq!(slot.spot.ask_price, None);
    assert!(slot.spot.buy_order_ids.is_empty());
    assert!(slot.spot.sell_order_ids.is_empty());
    assert_eq!(slot.spot.filled_buy, 0);
    assert_eq!(slot.spot.filled_sell, 0);
    assert!(slot.has_open_short);
    assert_eq!(slot.size_position, 9);
    assert_eq!(slot.amount_target, 500 * SCALE);
    CleanOrder(&mut orders, 4);
    assert_eq!(orders.orders.len(), 4);
}

#[test]
fn requeue_leaves_everything_as_it_is() {
    let ids = vec!["1".to_string(), "2".to_string()];
    Requeue(&ids);
    assert_eq!(ids, vec!["1".to_string(), "2".to_string()]);
}
