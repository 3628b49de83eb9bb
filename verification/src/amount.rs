//! Fixed-point amounts: prices and quantities counted in units of 10^-8,
//! and the tick grid that prices are rounded to.

use vstd::prelude::*;

verus! {

/// A price, in units of 10^-8 of the quote asset.
pub type Price = u64;

/// A quantity, in units of 10^-8 of the base asset.
pub type Quantity = u64;

/// Number of units in one whole.
pub const SCALE: u64 = 100_000_000;

/// Number of fractional decimal digits an amount carries.
pub const FRACTION_DIGITS: usize = 8;

/// Largest amount the book and the asset may hold: 10^10 wholes.
pub const MAX_AMOUNT: u64 = 1_000_000_000_000_000_000;

/// The multiple of `tick` nearest to `price`; of two equally near, the
/// larger.
pub open spec fn nearest_tick(price: int, tick: int) -> int {
    ((price + tick / 2) / tick) * tick
}

/// `m` is a multiple of `tick` in the half-open interval of one tick's width
/// that is centred on `price`: no multiple lies nearer, and of two equally
/// near it is the larger.
pub open spec fn is_nearest_multiple(m: int, price: int, tick: int) -> bool {
    m % tick == 0 && 2 * price - tick < 2 * m <= 2 * price + tick
}

/// [`nearest_tick`] is the one multiple of the tick that lies nearest to
/// `price`.
pub proof fn lemma_nearest_tick(price: int, tick: int)
    requires
        0 <= price,
        0 < tick,
    ensures
        is_nearest_multiple(nearest_tick(price, tick), price, tick),
        0 <= nearest_tick(price, tick) <= price + tick / 2,
        forall|m: int|
            #[trigger] is_nearest_multiple(m, price, tick) ==> m == nearest_tick(price, tick),
{
    let shifted = price + tick / 2;
    let count = shifted / tick;
    let rounded = count * tick;
    assert(shifted == tick * count + shifted % tick && 0 <= shifted % tick < tick && 0 <= count)
        by (nonlinear_arith)
        requires
            0 <= shifted,
            0 < tick,
            count == shifted / tick,
    ;
    assert(rounded == tick * count && rounded % tick == 0) by (nonlinear_arith)
        requires
            rounded == count * tick,
            0 < tick,
    ;
    assert(2 * (tick / 2) <= tick && tick <= 2 * (tick / 2) + 1);
    assert(2 * rounded != 2 * price - tick) by {
        if 2 * rounded == 2 * price - tick {
            // then the tick is even, and the shifted price leaves a full tick
            assert(tick == 2 * (price - rounded));
            assert(tick / 2 == price - rounded);
            assert(shifted % tick == tick);
        }
    }
    assert forall|m: int| #[trigger] is_nearest_multiple(m, price, tick) implies m == rounded by {
        assert(m == rounded) by (nonlinear_arith)
            requires
                m % tick == 0,
                rounded % tick == 0,
                0 < tick,
                -tick < m - rounded < tick,
        ;
    }
}

/// Rounds `price` to the nearest multiple of `tick_size`, halves upward.
pub fn round_to_tick(price: Price, tick_size: Price) -> (rounded: Price)
    requires
        tick_size > 0,
        price + tick_size / 2 <= u64::MAX,
    ensures
        rounded == nearest_tick(price as int, tick_size as int),
        rounded % tick_size == 0,
        2 * price - tick_size < 2 * rounded <= 2 * price + tick_size,
{
    proof {
        lemma_nearest_tick(price as int, tick_size as int);
    }
    let count = (price + tick_size / 2) / tick_size;
    count * tick_size
}

/// The SELL price paired with a BUY at `bid_price`: one tick above it,
/// rounded to the tick grid.
pub open spec fn paired_ask(bid_price: Price, tick_size: Price) -> int {
    nearest_tick(bid_price + tick_size, tick_size as int)
}

/// Computes [`paired_ask`].
pub fn quote_ask(bid_price: Price, tick_size: Price) -> (ask: Price)
    requires
        0 < tick_size <= MAX_AMOUNT,
        bid_price <= MAX_AMOUNT,
    ensures
        ask == paired_ask(bid_price, tick_size),
        ask % tick_size == 0,
        ask > bid_price,
{
    let ask = round_to_tick(bid_price + tick_size, tick_size);
    ask
}

} // verus!
