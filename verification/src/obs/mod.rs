//! Observability: latency records, logs, and what happens when their sinks fail.
pub mod correlation;
pub mod degraded;
pub mod error;
pub mod logging;
pub mod loki_shipper;
pub mod metrics;
pub mod sampling;
pub mod telemetry_laws;
pub mod tracer;
