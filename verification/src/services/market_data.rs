//! The interface of a source of market data.

use crate::decimal::Decimal;
use crate::models::indicators::Candle;
use vstd::prelude::*;

verus! {

/// Why a source of market data could not answer.
#[derive(Clone, Debug, PartialEq, Eq)]
pub enum MarketDataError {
    /// The source cannot be reached; the text says why.
    Unavailable(String),
}

/// A source of market data.
pub trait MarketDataProvider {
    /// The newest `limit` candles of a symbol, oldest first.
    fn get_candles(&self, symbol: &str, limit: usize) -> Result<Vec<Candle>, MarketDataError>;

    /// The last price of a symbol.
    fn get_latest_price(&self, symbol: &str) -> Result<Decimal, MarketDataError>;

    /// Asks for the data of a symbol to be kept up to date.
    fn subscribe(&self, symbol: &str) -> Result<(), MarketDataError>;
}

/// A source without data: it has no candles, and every price is zero.
pub struct PlaceholderMarketDataProvider;

impl MarketDataProvider for PlaceholderMarketDataProvider {
    fn get_candles(&self, symbol: &str, limit: usize) -> (r: Result<Vec<Candle>, MarketDataError>)
        ensures
            r matches Ok(candles) && candles@.len() == 0,
    {
        Ok(Vec::new())
    }

    fn get_latest_price(&self, symbol: &str) -> (r: Result<Decimal, MarketDataError>)
        ensures
            r == Ok::<Decimal, MarketDataError>(Decimal { units: 0 }),
    {
        Ok(Decimal::zero())
    }

    fn subscribe(&self, symbol: &str) -> (r: Result<(), MarketDataError>)
        ensures
            r is Ok,
    {
        Ok(())
    }
}

} // verus!
