//! Order-lifecycle logic of a market maker that keeps a fixed pool of resting
//! BUY orders on one spot pair and hedges each filled level with a futures
//! short.
//!
//! Prices and quantities are fixed-point integers (see [`amount`]). Every
//! function here is a pure step: it takes the state it works on as an
//! argument and returns what has to be sent to the venue; sending is left to
//! the caller.
//!
//! - [`state`]: the asset, the book, the slot table, the last best bid.
//! - [`logic`]: the level evaluator, the hedge, the buy reconciler and the
//!   execution router, with what holds of every table they reach.
//! - [`feeds`]: reading stream frames and REST answers.
//! - [`exchange`], [`signing`], [`binance`]: payloads, signatures and URLs
//!   of what is sent.
//! - [`amount`], [`decimal`], [`json`], [`text`]: the tools underneath.

pub mod amount;
pub mod binance;
pub mod decimal;
pub mod exchange;
pub mod feeds;
pub mod json;
pub mod logic;
pub mod signing;
pub mod state;
pub mod text;
