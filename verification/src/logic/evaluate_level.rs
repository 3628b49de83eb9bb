//! The level evaluator: each new best bid is compared with the one before.

use vstd::prelude::*;
use crate::amount::Price;
use crate::state::market_price::MarketPriceState;

verus! {

/// What a new best bid calls for.
#[derive(Debug, Clone, Copy, PartialEq, Eq, Structural)]
pub enum LevelAction {
    /// First bid seen, or the bid did not move.
    Hold,
    /// The bid ticked up: a short whose slot bids at the new level is closed.
    CloseShort,
    /// The bid ticked down: a short is opened for a slot left above it.
    OpenShort,
}

/// The action for `best_bid` when the bid before it was `last`.
pub open spec fn level_action(last: Option<Price>, best_bid: Price) -> LevelAction {
    match last {
        None => LevelAction::Hold,
        Some(before) => if best_bid == before {
            LevelAction::Hold
        } else if best_bid > before {
            LevelAction::CloseShort
        } else {
            LevelAction::OpenShort
        },
    }
}

/// Decides on `best_bid` against the bid remembered in `market`, then
/// remembers `best_bid` in its place.
pub fn evaluate_level(market: &mut MarketPriceState, best_bid: Price) -> (action: LevelAction)
    ensures
        action == level_action(old(market).last_best_bid, best_bid),
        final(market).last_best_bid == Some(best_bid),
{
    let action = match market.last_best_bid {
        None => LevelAction::Hold,
        Some(before) => if best_bid == before {
            LevelAction::Hold
        } else if best_bid > before {
            LevelAction::CloseShort
        } else {
            LevelAction::OpenShort
        },
    };
    market.last_best_bid = Some(best_bid);
    action
}

} // verus!
