//! What can go wrong in observability.
use crate::base::text::join;
use vstd::prelude::*;

verus! {

/// An error of the observability layer.
#[derive(Clone, Debug, PartialEq, Eq)]
pub enum ObsError {
    PrometheusInit(String),
    PrometheusRegister(String),
    Otel(String),
    Logging(String),
    LokiShipper(String),
    Config(String),
}

#[verifier::external_type_specification]
#[verifier::external_body]
pub struct ExPrometheusError(prometheus::Error);

/// Calls `to_string` on a `prometheus::Error`. The text is left open: that of an
/// I/O fault is the operating system's.
#[verifier::external_body]
fn prometheus_text(e: prometheus::Error) -> (text: String)
{
    e.to_string()
}

impl vstd::std_specs::convert::FromSpecImpl<prometheus::Error> for ObsError {
    open spec fn obeys_from_spec() -> bool {
        false
    }

    open spec fn from_spec(e: prometheus::Error) -> ObsError {
        arbitrary()
    }
}

impl From<prometheus::Error> for ObsError {
    /// A failed registration, in the words of the metrics library.
    fn from(e: prometheus::Error) -> (o: ObsError)
        ensures
            o is PrometheusRegister,
    {
        ObsError::register_failed(prometheus_text(e))
    }
}

impl ObsError {
    /// A failed registration, in the given words.
    pub fn register_failed(text: String) -> (e: ObsError)
        ensures
            e == ObsError::PrometheusRegister(text),
    {
        ObsError::PrometheusRegister(text)
    }

    /// The words of an error.
    pub open spec fn words(self) -> Seq<char> {
        match self {
            ObsError::PrometheusInit(m) => "prometheus init failed: "@ + m@,
            ObsError::PrometheusRegister(m) => "prometheus register failed: "@ + m@,
            ObsError::Otel(m) => "otlp exporter init failed: "@ + m@,
            ObsError::Logging(m) => "tracing subscriber init failed: "@ + m@,
            ObsError::LokiShipper(m) => "loki shipper failure: "@ + m@,
            ObsError::Config(m) => "invalid observability config: "@ + m@,
        }
    }

    /// The error in words.
    pub fn to_text(&self) -> (s: String)
        ensures
            s@ == self.words(),
    {
        match self {
            ObsError::PrometheusInit(m) => join("prometheus init failed: ", m.as_str()),
            ObsError::PrometheusRegister(m) => join("prometheus register failed: ", m.as_str()),
            ObsError::Otel(m) => join("otlp exporter init failed: ", m.as_str()),
            ObsError::Logging(m) => join("tracing subscriber init failed: ", m.as_str()),
            ObsError::LokiShipper(m) => join("loki shipper failure: ", m.as_str()),
            ObsError::Config(m) => join("invalid observability config: ", m.as_str()),
        }
    }
}

} // verus!
