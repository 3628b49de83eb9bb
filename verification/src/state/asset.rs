//! The traded pair.

use vstd::prelude::*;
use vstd::string::*;
use crate::amount::{Price, MAX_AMOUNT};

verus! {

/// Symbol and price increment of the single pair the bot trades. Built once
/// at start-up and not changed afterwards.
#[derive(Debug, Clone)]
pub struct AssetState {
    pub symbol: String,
    pub tick_size: Price,
}

impl AssetState {
    /// The tick is positive and within the range amounts may take.
    pub open spec fn wf(&self) -> bool {
        0 < self.tick_size <= MAX_AMOUNT
    }

    /// The default pair: `ACTUSDT` with a tick of 0.0001.
    pub fn new() -> (asset: Self)
        ensures
            asset.symbol@ == "ACTUSDT"@,
            asset.tick_size == 10_000,
            asset.wf(),
    {
        AssetState { symbol: String::from_str("ACTUSDT"), tick_size: 10_000 }
    }

    /// Runtime test of [`Self::wf`].
    pub fn is_wf(&self) -> (ok: bool)
        ensures
            ok == self.wf(),
    {
        0 < self.tick_size && self.tick_size <= MAX_AMOUNT
    }
}

} // verus!
