use hedgemaker::amount::{quote_ask, round_to_tick, MAX_AMOUNT, SCALE};
use hedgemaker::decimal::{format_qty, parse_decimal};

#[test]
fn round_to_tick_keeps_a_multiple() {
    assert_eq!(round_to_tick(100_010_000, 10_000), 100_010_000);
    assert_eq!(round_to_tick(0, 10_000), 0);
}

#[test]
fn round_to_tick_goes_to_the_nearest_multiple() {
    assert_eq!(round_to_tick(100_014_999, 10_000), 100_010_000);
    assert_eq!(round_to_tick(100_015_001, 10_000), 100_020_000);
    assert_eq!(round_to_tick(4, 3), 3);
    assert_eq!(round_to_tick(5, 3), 6);
}

#[test]
fn round_to_tick_takes_halves_upward() {
    assert_eq!(round_to_tick(100_015_000, 10_000), 100_020_000);
    assert_eq!(round_to_tick(1, 2), 2);
}

#[test]
fn round_to_tick_result_is_on_the_grid() {
    let ticks = [1u64, 2, 3, 7, 10_000, 12_345];
    let prices = [0u64, 1, 5, 9_999, 10_000, 99_990_000, 100_014_999, 123_456_789];
    for tick in ticks {
        for price in prices {
            let rounded = round_to_tick(price, tick);
            assert_eq!(rounded % tick, 0);
            assert!(2 * rounded <= 2 * price + tick);
            assert!(2 * rounded + tick > 2 * price);
        }
    }
}

#[test]
fn quote_ask_is_one_tick_above_the_bid() {
    assert_eq!(quote_ask(100_000_000, 10_000), 100_010_000);
    assert_eq!(quote_ask(99_990_000, 10_000), 100_000_000);
    assert_eq!(quote_ask(99_970_000, 10_000), 99_980_000);
}

#[test]
fn quote_ask_rounds_a_bid_off_the_grid() {
    assert_eq!(quote_ask(99_994_000, 10_000), 100_000_000);
    assert_eq!(quote_ask(99_996_000, 10_000), 100_010_000);
}

#[test]
fn quote_ask_at_the_largest_amount() {
    let ask = quote_ask(MAX_AMOUNT, MAX_AMOUNT);
    assert_eq!(ask, 2 * MAX_AMOUNT);
}

#[test]
fn format_qty_trims_zeros_and_point() {
    assert_eq!(format_qty(500 * SCALE), "500");
    assert_eq!(format_qty(0), "0");
    assert_eq!(format_qty(150_000_000), "1.5");
    assert_eq!(format_qty(99_990_000), "0.9999");
    assert_eq!(format_qty(1), "0.00000001");
    assert_eq!(format_qty(10), "0.0000001");
    assert_eq!(format_qty(123_456_789_012), "1234.56789012");
    assert_eq!(format_qty(100_000_000), "1");
    assert_eq!(format_qty(u64::MAX), "184467440737.09551615");
}

#[test]
fn parse_decimal_reads_plain_amounts() {
    assert_eq!(parse_decimal("1"), Some(SCALE));
    assert_eq!(parse_decimal("0"), Some(0));
    assert_eq!(parse_decimal("0.9999"), Some(99_990_000));
    assert_eq!(parse_decimal("0.99990000"), Some(99_990_000));
    assert_eq!(parse_decimal("1.00000000"), Some(100_000_000));
    assert_eq!(parse_decimal("100.00000000"), Some(100 * SCALE));
    assert_eq!(parse_decimal("0.00000001"), Some(1));
    assert_eq!(parse_decimal("007.5"), Some(750_000_000));
    assert_eq!(parse_decimal("1234.56789012"), Some(123_456_789_012));
}

#[test]
fn parse_decimal_refuses_what_is_no_amount() {
    assert_eq!(parse_decimal(""), None);
    assert_eq!(parse_decimal("."), None);
    assert_eq!(parse_decimal(".5"), None);
    assert_eq!(parse_decimal("1."), None);
    assert_eq!(parse_decimal("-1"), None);
    assert_eq!(parse_decimal("+1"), None);
    assert_eq!(parse_decimal("1e3"), None);
    assert_eq!(parse_decimal(" 1"), None);
    assert_eq!(parse_decimal("1.2.3"), None);
    assert_eq!(parse_decimal("1,5"), None);
    assert_eq!(parse_decimal("abc"), None);
    assert_eq!(parse_decimal("0.123456789"), None);
    assert_eq!(parse_decimal("١٢"), None);
}

#[test]
fn parse_decimal_keeps_to_the_largest_amount() {
    assert_eq!(parse_decimal("10000000000"), Some(MAX_AMOUNT));
    assert_eq!(parse_decimal("10000000000.00000000"), Some(MAX_AMOUNT));
    assert_eq!(parse_decimal("10000000000.00000001"), None);
    assert_eq!(parse_decimal("99999999999"), None);
    assert_eq!(parse_decimal("100000000000"), None);
    assert_eq!(parse_decimal("123456789012"), None);
}

#[test]
fn written_amounts_read_back() {
    let amounts = [0u64, 1, 10, 99_990_000, 100_000_000, 50_000_000_000, 123_456_789_012, MAX_AMOUNT];
    for amount in amounts {
        assert_eq!(parse_decimal(&format_qty(amount)), Some(amount));
    }
}
