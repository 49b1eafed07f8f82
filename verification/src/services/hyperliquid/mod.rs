//! The state of the streaming market-data feed: candle buffers, last prices
//! and the set of subscriptions.

pub mod buffer;
pub mod connection;
pub mod messages;
pub mod provider;
pub mod subscriptions;
