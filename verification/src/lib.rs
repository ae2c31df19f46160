//! Engines of an intraday trading stack, stated in contracts and proved:
//! order flow, positions, market data, replay and observability.
pub mod base;
pub mod market_data;
pub mod obs;
pub mod orderflow;
pub mod position;
pub mod replay;
