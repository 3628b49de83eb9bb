use hedgemaker::amount::SCALE;
use hedgemaker::logic::evaluate_level::{evaluate_level, LevelAction};
use hedgemaker::logic::hedge::{
    closeshort, openshort, record_short_closed, record_short_opened, ShortOrder,
};
use hedgemaker::state::market_price::MarketPriceState;
use hedgemaker::state::orders::OrdersState;

const P10000: u64 = 100_000_000;
const P09999: u64 = 99_990_000;
const P09998: u64 = 99_980_000;
const P09997: u64 = 99_970_000;

fn table_with_bids(bids: [u64; 4]) -> OrdersState {
    let mut orders = OrdersState::new();
    for (i, bid) in bids.iter().enumerate() {
        orders.orders[i].spot.bid_price = Some(*bid);
        orders.orders[i].spot.ask_price = Some(*bid + 10_000);
        orders.orders[i].spot.buy_order_ids.push(format!("{}", 100 + i));
    }
    orders
}

#[test]
fn first_bid_is_only_remembered() {
    let mut market = MarketPriceState::new();
    assert_eq!(evaluate_level(&mut market, P10000), LevelAction::Hold);
    assert_eq!(market.last_best_bid, Some(P10000));
}

#[test]
fn unchanged_bid_holds() {
    let mut market = MarketPriceState { last_best_bid: Some(P10000) };
    assert_eq!(evaluate_level(&mut market, P10000), LevelAction::Hold);
    assert_eq!(market.last_best_bid, Some(P10000));
}

#[test]
fn bid_tick_up_closes_and_tick_down_opens() {
    let mut market = MarketPriceState { last_best_bid: Some(P09999) };
    assert_eq!(evaluate_level(&mut market, P10000), LevelAction::CloseShort);
    assert_eq!(market.last_best_bid, Some(P10000));
    assert_eq!(evaluate_level(&mut market, P09998), LevelAction::OpenShort);
    assert_eq!(market.last_best_bid, Some(P09998));
}

#[test]
fn bid_tick_down_triggers_short() {
    let mut market = MarketPriceState { last_best_bid: Some(P10000) };
    let mut orders = table_with_bids([P10000, P09999, P09998, P09997]);
    assert_eq!(evaluate_level(&mut market, P09999), LevelAction::OpenShort);
    let order = openshort(&orders, P09999);
    assert_eq!(order, Some(ShortOrder { index: 0, size: 500 * SCALE }));
    record_short_opened(&mut orders, order.unwrap());
    assert!(orders.orders[0].has_open_short);
    assert_eq!(orders.orders[0].size_position, 500 * SCALE);
    assert!(!orders.orders[1].has_open_short);
    assert!(orders.is_wf());
}

#[test]
fn bid_tick_back_up_closes_short() {
    let mut market = MarketPriceState { last_best_bid: Some(P09999) };
    let mut orders = table_with_bids([P10000, P09999, P09998, P09997]);
    record_short_opened(&mut orders, ShortOrder { index: 0, size: 500 * SCALE });
    assert_eq!(evaluate_level(&mut market, P10000), LevelAction::CloseShort);
    let order = closeshort(&orders, P10000);
    assert_eq!(order, Some(ShortOrder { index: 0, size: 500 * SCALE }));
    record_short_closed(&mut orders, 0);
    assert!(!orders.orders[0].has_open_short);
    assert_eq!(orders.orders[0].size_position, 0);
    assert!(orders.is_wf());
}

#[test]
fn openshort_passes_over_slots_that_do_not_qualify() {
    let mut orders = table_with_bids([P10000, P09999, P09998, P09997]);
    // slot 0 is short already, slot 1 has sold its whole target
    orders.orders[0].has_open_short = true;
    orders.orders[0].size_position = 500 * SCALE;
    orders.orders[1].spot.filled_sell = 500 * SCALE;
    // the bid is not below slot 3's price
    assert_eq!(
        openshort(&orders, P09997),
        Some(ShortOrder { index: 2, size: 500 * SCALE })
    );
    orders.orders[2].spot.filled_sell = 120 * SCALE;
    assert_eq!(
        openshort(&orders, P09997),
        Some(ShortOrder { index: 2, size: 380 * SCALE })
    );
    orders.orders[2].spot.bid_price = None;
    orders.orders[2].spot.buy_order_ids.clear();
    assert_eq!(openshort(&orders, P09997), None);
}

#[test]
fn openshort_needs_a_bid_strictly_above() {
    let orders = table_with_bids([P10000, P09999, P09998, P09997]);
    assert_eq!(openshort(&orders, P10000), None);
    assert_eq!(openshort(&orders, P10000 + 1), None);
    assert_eq!(
        openshort(&orders, P10000 - 1),
        Some(ShortOrder { index: 0, size: 500 * SCALE })
    );
}

#[test]
fn openshort_on_empty_table_finds_nothing() {
    assert_eq!(openshort(&OrdersState::new(), 1), None);
    assert_eq!(closeshort(&OrdersState::new(), 1), None);
}

#[test]
fn closeshort_needs_an_open_short_at_the_bid() {
    let mut orders = table_with_bids([P10000, P09999, P09998, P09997]);
    assert_eq!(closeshort(&orders, P10000), None);
    orders.orders[1].has_open_short = true;
    orders.orders[1].size_position = 42;
    assert_eq!(closeshort(&orders, P10000), None);
    assert_eq!(closeshort(&orders, P09999), Some(ShortOrder { index: 1, size: 42 }));
    orders.orders[1].size_position = 0;
    assert_eq!(closeshort(&orders, P09999), None);
}

#[test]
fn booking_a_short_outside_the_table_changes_nothing() {
    let mut orders = table_with_bids([P10000, P09999, P09998, P09997]);
    record_short_opened(&mut orders, ShortOrder { index: 4, size: 1 });
    record_short_closed(&mut orders, 9);
    for slot in &orders.orders {
        assert!(!slot.has_open_short);
        assert_eq!(slot.size_position, 0);
    }
}
