//! Verified core of the XAUUSD engine: calendar parsing, feed
//! configuration decisions, tick aggregation, bounded histories and the
//! trading-session clock.

pub mod config;
pub mod text;
pub mod calendar;
pub mod types;
pub mod tick_volume;
pub mod sifting;
pub mod session;
pub mod candle_history;
pub mod sifting_rest;
pub mod status;
pub mod order_flow;
pub mod ws;
pub mod mcp;
pub mod json;
pub mod exchange;
pub mod swing;
pub mod execution;
