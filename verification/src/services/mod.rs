//! Market data: the provider interface and the ingestion state of the
//! streaming feed.

pub mod hyperliquid;
pub mod market_data;
