//! The best bid seen last.

use vstd::prelude::*;
use crate::amount::Price;

verus! {

/// The previous top-of-book bid, kept for comparison with the next one.
#[derive(Debug, Clone)]
pub struct MarketPriceState {
    pub last_best_bid: Option<Price>,
}

impl MarketPriceState {
    /// No bid has been seen yet.
    pub fn new() -> (state: Self)
        ensures
            state.last_best_bid is None,
    {
        MarketPriceState { last_best_bid: None }
    }
}

} // verus!
