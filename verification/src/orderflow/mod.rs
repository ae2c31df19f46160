//! Order flow: the live book, its heatmap, the pattern detectors and the
//! per-symbol metrics.
pub mod book;
pub mod heatmap;
pub mod events;
pub mod pattern_laws;
pub mod metrics;
pub mod window_laws;
pub mod war_mode;
pub mod engine;
pub mod figure_laws;
pub mod feed;
