//! Building blocks of an Interactive Brokers client engine.
pub mod bridge;
pub mod calendar;
pub mod client;
pub mod engine;
pub mod gateway;
pub mod protocol;
pub mod session_laws;
pub mod text;
pub mod types;
