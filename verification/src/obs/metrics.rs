//! The metrics that are kept, with their names, labels and buckets.
use crate::base::schema::Stage;
use vstd::prelude::*;

verus! {

/// A metric.
#[derive(Clone, Copy, Debug, PartialEq, Eq, Structural)]
pub enum Metric {
    TickIngestNs,
    FeatureExtractNs,
    RiskCheckNs,
    ExecRouteNs,
    BrokerLatencyNs,
    SlippageBps,
    WebsocketDropsTotal,
    RiskAnomalyTotal,
    BudgetBreachTotal,
    TraderEmotionalRisk,
    AiDrift,
}

/// What a metric measures.
#[derive(Clone, Copy, Debug, PartialEq, Eq, Structural)]
pub enum MetricKind {
    /// Latencies, in the latency buckets.
    LatencyHistogram,
    /// Slippage, in the slippage buckets.
    SlippageHistogram,
    Counter,
    Gauge,
}

/// A metric as it is registered.
#[derive(Clone, Copy, Debug, PartialEq, Eq)]
pub struct MetricSpec {
    pub metric: Metric,
    pub name: &'static str,
    pub help: &'static str,
    pub kind: MetricKind,
    pub label: Option<&'static str>,
}

impl Metric {
    /// The name of the metric.
    pub open spec fn name(self) -> Seq<char> {
        match self {
            Metric::TickIngestNs => "hedge_tick_ingest_ns"@,
            Metric::FeatureExtractNs => "hedge_feature_extract_ns"@,
            Metric::RiskCheckNs => "hedge_risk_check_ns"@,
            Metric::ExecRouteNs => "hedge_exec_route_ns"@,
            Metric::BrokerLatencyNs => "hedge_broker_latency_ns"@,
            Metric::SlippageBps => "hedge_slippage_bps"@,
            Metric::WebsocketDropsTotal => "hedge_websocket_drops_total"@,
            Metric::RiskAnomalyTotal => "hedge_risk_anomaly_total"@,
            Metric::BudgetBreachTotal => "hedge_budget_breach_total"@,
            Metric::TraderEmotionalRisk => "hedge_trader_emotional_risk"@,
            Metric::AiDrift => "hedge_ai_drift"@,
        }
    }

    /// What the metric shows, in words.
    pub open spec fn help(self) -> Seq<char> {
        match self {
            Metric::TickIngestNs => "Tick ingest latency, nanoseconds (R28.1)"@,
            Metric::FeatureExtractNs => "Feature extraction latency, nanoseconds (R28.2)"@,
            Metric::RiskCheckNs => "Risk_Engine evaluate latency, nanoseconds (R28.3, R5.12)"@,
            Metric::ExecRouteNs => "Execution_Engine route latency, nanoseconds (R28.4, R6.1)"@,
            Metric::BrokerLatencyNs => "Broker submit round-trip latency, nanoseconds (R7.4)"@,
            Metric::SlippageBps => "Observed slippage per fill, basis points (R5.8)"@,
            Metric::WebsocketDropsTotal => "WebSocket disconnect count per source (R1.6)"@,
            Metric::RiskAnomalyTotal => "Risk anomaly count per kind (R5.10, R5.11)"@,
            Metric::BudgetBreachTotal => "Per-stage latency-budget breach count (R28.6)"@,
            Metric::TraderEmotionalRisk =>
                "Trader emotional-risk gauge derived from Trader_Stability_Score (R16)"@,
            Metric::AiDrift => "Per-component AI drift gauge (R24.1)"@,
        }
    }

    /// What the metric measures.
    pub open spec fn kind(self) -> MetricKind {
        match self {
            Metric::TickIngestNs => MetricKind::LatencyHistogram,
            Metric::FeatureExtractNs => MetricKind::LatencyHistogram,
            Metric::RiskCheckNs => MetricKind::LatencyHistogram,
            Metric::ExecRouteNs => MetricKind::LatencyHistogram,
            Metric::BrokerLatencyNs => MetricKind::LatencyHistogram,
            Metric::SlippageBps => MetricKind::SlippageHistogram,
            Metric::WebsocketDropsTotal => MetricKind::Counter,
            Metric::RiskAnomalyTotal => MetricKind::Counter,
            Metric::BudgetBreachTotal => MetricKind::Counter,
            Metric::TraderEmotionalRisk => MetricKind::Gauge,
            Metric::AiDrift => MetricKind::Gauge,
        }
    }

    /// The label by which the metric is split.
    pub open spec fn label(self) -> Option<Seq<char>> {
        match self {
            Metric::BrokerLatencyNs => Some("broker"@),
            Metric::SlippageBps => Some("symbol"@),
            Metric::WebsocketDropsTotal => Some("source"@),
            Metric::RiskAnomalyTotal => Some("kind"@),
            Metric::BudgetBreachTotal => Some("stage"@),
            Metric::AiDrift => Some("component"@),
            _ => None,
        }
    }

    /// The metric as it is registered.
    pub fn describe(self) -> (d: MetricSpec)
        ensures
            describes(d, self),
    {
        match self {
            Metric::TickIngestNs => MetricSpec {
                metric: self,
                name: "hedge_tick_ingest_ns",
                help: "Tick ingest latency, nanoseconds (R28.1)",
                kind: MetricKind::LatencyHistogram,
                label: None,
            },
            Metric::FeatureExtractNs => MetricSpec {
                metric: self,
                name: "hedge_feature_extract_ns",
                help: "Feature extraction latency, nanoseconds (R28.2)",
                kind: MetricKind::LatencyHistogram,
                label: None,
            },
            Metric::RiskCheckNs => MetricSpec {
                metric: self,
                name: "hedge_risk_check_ns",
                help: "Risk_Engine evaluate latency, nanoseconds (R28.3, R5.12)",
                kind: MetricKind::LatencyHistogram,
                label: None,
            },
            Metric::ExecRouteNs => MetricSpec {
                metric: self,
                name: "hedge_exec_route_ns",
                help: "Execution_Engine route latency, nanoseconds (R28.4, R6.1)",
                kind: MetricKind::LatencyHistogram,
                label: None,
            },
            Metric::BrokerLatencyNs => MetricSpec {
                metric: self,
                name: "hedge_broker_latency_ns",
                help: "Broker submit round-trip latency, nanoseconds (R7.4)",
                kind: MetricKind::LatencyHistogram,
                label: Some("broker"),
            },
            Metric::SlippageBps => MetricSpec {
                metric: self,
                name: "hedge_slippage_bps",
                help: "Observed slippage per fill, basis points (R5.8)",
                kind: MetricKind::SlippageHistogram,
                label: Some("symbol"),
            },
            Metric::WebsocketDropsTotal => MetricSpec {
                metric: self,
                name: "hedge_websocket_drops_total",
                help: "WebSocket disconnect count per source (R1.6)",
                kind: MetricKind::Counter,
                label: Some("source"),
            },
            Metric::RiskAnomalyTotal => MetricSpec {
                metric: self,
                name: "hedge_risk_anomaly_total",
                help: "Risk anomaly count per kind (R5.10, R5.11)",
                kind: MetricKind::Counter,
                label: Some("kind"),
            },
            Metric::BudgetBreachTotal => MetricSpec {
                metric: self,
                name: "hedge_budget_breach_total",
                help: "Per-stage latency-budget breach count (R28.6)",
                kind: MetricKind::Counter,
                label: Some("stage"),
            },
            Metric::TraderEmotionalRisk => MetricSpec {
                metric: self,
                name: "hedge_trader_emotional_risk",
                help: "Trader emotional-risk gauge derived from Trader_Stability_Score (R16)",
                kind: MetricKind::Gauge,
                label: None,
            },
            Metric::AiDrift => MetricSpec {
                metric: self,
                name: "hedge_ai_drift",
                help: "Per-component AI drift gauge (R24.1)",
                kind: MetricKind::Gauge,
                label: Some("component"),
            },
        }
    }
}

/// Whether a description is that of a metric.
pub open spec fn describes(d: MetricSpec, m: Metric) -> bool {
    &&& d.metric == m
    &&& d.name@ == m.name()
    &&& d.help@ == m.help()
    &&& d.kind == m.kind()
    &&& match d.label {
        Some(label) => m.label() == Some(label@),
        None => m.label() is None,
    }
}

/// All metrics, in the order in which they are registered.
pub open spec fn catalogue() -> Seq<Metric> {
    seq![
        Metric::TickIngestNs,
        Metric::FeatureExtractNs,
        Metric::RiskCheckNs,
        Metric::ExecRouteNs,
        Metric::BrokerLatencyNs,
        Metric::SlippageBps,
        Metric::WebsocketDropsTotal,
        Metric::RiskAnomalyTotal,
        Metric::BudgetBreachTotal,
        Metric::TraderEmotionalRisk,
        Metric::AiDrift,
    ]
}

/// Describe all metrics.
pub fn build_metrics() -> (all: Vec<MetricSpec>)
    ensures
        all@.len() == catalogue().len(),
        forall|i: int| 0 <= i < all@.len() ==> describes(#[trigger] all@[i], catalogue()[i]),
{
    let mut all: Vec<MetricSpec> = Vec::new();
    all.push(Metric::TickIngestNs.describe());
    all.push(Metric::FeatureExtractNs.describe());
    all.push(Metric::RiskCheckNs.describe());
    all.push(Metric::ExecRouteNs.describe());
    all.push(Metric::BrokerLatencyNs.describe());
    all.push(Metric::SlippageBps.describe());
    all.push(Metric::WebsocketDropsTotal.describe());
    all.push(Metric::RiskAnomalyTotal.describe());
    all.push(Metric::BudgetBreachTotal.describe());
    all.push(Metric::TraderEmotionalRisk.describe());
    all.push(Metric::AiDrift.describe());
    all
}

/// The upper bounds of the latency buckets, in nanoseconds.
pub fn latency_buckets_ns() -> (bounds: Vec<u64>)
    ensures
        bounds@ == seq![
            100u64,
            250,
            500,
            1_000,
            2_000,
            3_000,
            5_000,
            10_000,
            20_000,
            50_000,
            100_000,
        ],
{
    vec![100u64, 250, 500, 1_000, 2_000, 3_000, 5_000, 10_000, 20_000, 50_000, 100_000]
}

/// The upper bounds of the slippage buckets, in tenths of a basis point.
pub fn slippage_buckets_tenths() -> (bounds: Vec<u64>)
    ensures
        bounds@ == seq![5u64, 10, 20, 50, 100, 250, 500, 1_000, 2_500, 5_000],
{
    vec![5u64, 10, 20, 50, 100, 250, 500, 1_000, 2_500, 5_000]
}

/// The histogram that the latencies of a stage go to. Fetching scores is part of
/// the risk check. Broker latencies are kept by broker, which is not known here.
pub open spec fn histogram_of(stage: Stage) -> Option<Metric> {
    match stage {
        Stage::TickIngest => Some(Metric::TickIngestNs),
        Stage::FeatureExtraction => Some(Metric::FeatureExtractNs),
        Stage::AiScoringFetch => Some(Metric::RiskCheckNs),
        Stage::RiskCheck => Some(Metric::RiskCheckNs),
        Stage::ExecutionRouting => Some(Metric::ExecRouteNs),
        Stage::BrokerSubmit => None,
    }
}

/// The histogram that the latencies of a stage go to.
pub fn histogram_for(stage: Stage) -> (m: Option<Metric>)
    ensures
        m == histogram_of(stage),
{
    match stage {
        Stage::TickIngest => Some(Metric::TickIngestNs),
        Stage::FeatureExtraction => Some(Metric::FeatureExtractNs),
        Stage::AiScoringFetch => Some(Metric::RiskCheckNs),
        Stage::RiskCheck => Some(Metric::RiskCheckNs),
        Stage::ExecutionRouting => Some(Metric::ExecRouteNs),
        Stage::BrokerSubmit => None,
    }
}

/// What tells the names apart: their length and the letter after the common
/// beginning.
proof fn lemma_names(m: Metric)
    ensures
        (m.name().len(), m.name()[6]) == match m {
            Metric::TickIngestNs => (20nat, 't'),
            Metric::FeatureExtractNs => (24nat, 'f'),
            Metric::RiskCheckNs => (19nat, 'r'),
            Metric::ExecRouteNs => (19nat, 'e'),
            Metric::BrokerLatencyNs => (23nat, 'b'),
            Metric::SlippageBps => (18nat, 's'),
            Metric::WebsocketDropsTotal => (27nat, 'w'),
            Metric::RiskAnomalyTotal => (24nat, 'r'),
            Metric::BudgetBreachTotal => (25nat, 'b'),
            Metric::TraderEmotionalRisk => (27nat, 't'),
            Metric::AiDrift => (14nat, 'a'),
        },
{
    reveal_strlit("hedge_tick_ingest_ns");
    reveal_strlit("hedge_feature_extract_ns");
    reveal_strlit("hedge_risk_check_ns");
    reveal_strlit("hedge_exec_route_ns");
    reveal_strlit("hedge_broker_latency_ns");
    reveal_strlit("hedge_slippage_bps");
    reveal_strlit("hedge_websocket_drops_total");
    reveal_strlit("hedge_risk_anomaly_total");
    reveal_strlit("hedge_budget_breach_total");
    reveal_strlit("hedge_trader_emotional_risk");
    reveal_strlit("hedge_ai_drift");
}

/// No two metrics have the same name, so that all can be registered side by side.
pub proof fn law_names_are_distinct(a: Metric, b: Metric)
    requires
        a.name() == b.name(),
    ensures
        a == b,
{
    lemma_names(a);
    lemma_names(b);
}

/// Every metric is registered, and only once.
pub proof fn law_catalogue_is_complete(m: Metric)
    ensures
        catalogue().contains(m),
        catalogue().no_duplicates(),
{
    let i = match m {
        Metric::TickIngestNs => 0int,
        Metric::FeatureExtractNs => 1,
        Metric::RiskCheckNs => 2,
        Metric::ExecRouteNs => 3,
        Metric::BrokerLatencyNs => 4,
        Metric::SlippageBps => 5,
        Metric::WebsocketDropsTotal => 6,
        Metric::RiskAnomalyTotal => 7,
        Metric::BudgetBreachTotal => 8,
        Metric::TraderEmotionalRisk => 9,
        Metric::AiDrift => 10,
    };
    assert(catalogue()[i] == m);
}

} // verus!
