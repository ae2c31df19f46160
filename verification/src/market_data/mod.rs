//! Market data: normalisation, distribution, breadth and the feed bridge.
pub mod adapter;
pub mod breadth;
pub mod breadth_laws;
pub mod distributor;
pub mod engine;
pub mod error;
pub mod feed_laws;
pub mod interner;
pub mod normalizer;
pub mod protocol;
pub mod tick_wire;
pub mod upstox;
pub mod upstox_laws;
