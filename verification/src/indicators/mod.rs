//! Technical indicators: the states that they report and how their values
//! are read.

pub mod error;
pub mod momentum;
pub mod parser;
pub mod registry;
pub mod smoothing;
pub mod structure;
pub mod trend;
pub mod volatility;
