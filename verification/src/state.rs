//! The four stores the bot keeps in memory.

pub mod asset;
pub mod market_price;
pub mod orderbook;
pub mod orders;
