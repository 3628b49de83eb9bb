//! The decisions: what a feed event does to the slot table and what it asks
//! of the venue.

pub mod evaluate_level;
pub mod hedge;
pub mod invariants;
pub mod levels;
pub mod order;
pub mod reconcile;
pub mod steps;
pub mod user_stream_handler;
