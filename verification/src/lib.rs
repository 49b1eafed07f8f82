//! A trading-signal engine for perpetual-futures markets: candle ingestion
//! state, strategy rule trees and their evaluation into directional signals,
//! and the decisions of the job pipeline that connects them.

pub mod config;
pub mod decimal;
pub mod indicators;
pub mod jobs;
pub mod models;
pub mod orchestration;
pub mod services;
pub mod signals;
pub mod strategies;
pub mod text;
pub mod text_map;
