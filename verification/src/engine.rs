//! The engine: market state, tracked orders, and the messages about them.
pub mod context;
pub mod hot_loop;
pub mod market_state;
pub mod order;
