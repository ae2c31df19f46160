//! Degraded telemetry, logs, latency records and metrics.
use hedge::base::schema::{LatencyRecord, Stage};
use hedge::base::types::CorrelationId;
use hedge::obs::correlation::{hex_text, CorrelationIdHex, EMPTY, FIELD_CORRELATION_ID};
use hedge::obs::degraded::{BoundedRingLogBuffer, DegradedState};
use hedge::obs::error::ObsError;
use hedge::obs::logging::{
    keep_returned, record_field, route, Level, LogEnvelope, LokiLayer, LokiLayerConfig, Route, Severity,
    LOKI_BACKLOG_CAPACITY,
};
use hedge::obs::loki_shipper::{LokiShipper, ShipperAction, ShipperEvent};
use hedge::obs::metrics::{
    build_metrics, histogram_for, latency_buckets_ns, slippage_buckets_tenths, Metric, MetricKind,
};
use hedge::obs::sampling::{DownsampledSampler, SamplingDecision};
use hedge::obs::tracer::{LatencyEmitter, LatencyRecordJson, LatencyTracer, NoopEmitter, RecorderEmitter};
use tokio::sync::mpsc;

type Backlog = BoundedRingLogBuffer<LOKI_BACKLOG_CAPACITY, LogEnvelope>;

fn envelope(level: Level, message: &str) -> LogEnvelope {
    LogEnvelope {
        timestamp_ns: 1,
        level: format!("{:?}", level).to_uppercase(),
        target: "t".to_string(),
        message: message.to_string(),
        severity: Severity::from_level(&level),
    }
}

fn policy(drop_low: bool) -> LokiLayerConfig {
    LokiLayerConfig { drop_low_severity_on_unavailable: drop_low }
}

#[test]
fn degraded_flags_default_off() {
    let mut s = DegradedState::new();
    assert!(!s.loki_unavailable());
    assert!(!s.jaeger_overloaded());
    s.set_loki_unavailable(false);
    s.set_jaeger_overloaded(false);
    assert!(!s.loki_unavailable());
    assert!(!s.jaeger_overloaded());
}

#[test]
fn degraded_flags_are_independent() {
    let mut s = DegradedState::new();
    s.set_loki_unavailable(true);
    assert!(s.loki_unavailable());
    assert!(!s.jaeger_overloaded());
    s.set_jaeger_overloaded(true);
    s.set_loki_unavailable(false);
    assert!(!s.loki_unavailable());
    assert!(s.jaeger_overloaded());
}

#[test]
fn bounded_ring_drops_oldest_when_full() {
    let mut ring: BoundedRingLogBuffer<2, u32> = BoundedRingLogBuffer::new();
    assert_eq!(ring.capacity(), 2);
    assert!(ring.is_empty());
    assert_eq!(ring.push(1), None);
    assert_eq!(ring.push(2), None);
    assert!(ring.is_full());
    assert_eq!(ring.push(3), Some(1));
    assert_eq!(ring.push(4), Some(2));
    assert!(ring.is_full());
    let drained = ring.drain();
    assert_eq!(drained, vec![3, 4]);
    assert!(ring.is_empty());
}

#[test]
fn bounded_ring_handles_partial_fill_drain() {
    let mut ring: BoundedRingLogBuffer<8, &'static str> = BoundedRingLogBuffer::new();
    ring.push("alpha");
    ring.push("beta");
    assert_eq!(ring.len(), 2);
    let drained = ring.drain();
    assert_eq!(drained, vec!["alpha", "beta"]);
    assert!(ring.is_empty());
    assert!(ring.drain().is_empty());
}

#[test]
fn bounded_ring_wraps_correctly_after_eviction_and_drain() {
    let mut ring: BoundedRingLogBuffer<3, u8> = BoundedRingLogBuffer::new();
    ring.push(1);
    ring.push(2);
    ring.push(3);
    assert_eq!(ring.push(4), Some(1));
    assert_eq!(ring.push(5), Some(2));
    let drained = ring.drain();
    assert_eq!(drained, vec![3, 4, 5]);
    ring.push(10);
    assert_eq!(ring.drain(), vec![10]);
}

#[test]
fn bounded_ring_keeps_the_latest_of_many() {
    let mut ring: BoundedRingLogBuffer<4, u64> = BoundedRingLogBuffer::new();
    let mut evicted = Vec::new();
    for v in 0..50u64 {
        if let Some(old) = ring.push(v) {
            evicted.push(old);
        }
        assert!(ring.len() <= 4);
    }
    assert_eq!(evicted, (0..46u64).collect::<Vec<_>>());
    assert_eq!(ring.drain(), vec![46, 47, 48, 49]);
}

#[test]
fn display_renders_each_variant() {
    let cases: &[(ObsError, &str)] = &[
        (ObsError::PrometheusInit("dup".into()), "prometheus init failed: dup"),
        (ObsError::PrometheusRegister("x".into()), "prometheus register failed: x"),
        (ObsError::Otel("y".into()), "otlp exporter init failed: y"),
        (ObsError::Logging("z".into()), "tracing subscriber init failed: z"),
        (ObsError::LokiShipper("net".into()), "loki shipper failure: net"),
        (ObsError::Config("url".into()), "invalid observability config: url"),
    ];
    for (err, expected) in cases {
        assert_eq!(err.to_text(), *expected);
    }
}

#[test]
fn prometheus_error_converts_via_from() {
    let p = prometheus::Error::AlreadyReg;
    let o: ObsError = p.into();
    match o {
        ObsError::PrometheusRegister(words) => {
            assert_eq!(words, prometheus::Error::AlreadyReg.to_string())
        }
        other => panic!("expected PrometheusRegister, got {:?}", other),
    }
}

#[test]
fn severity_classification_matches_level() {
    assert_eq!(Severity::from_level(&Level::Trace), Severity::Low);
    assert_eq!(Severity::from_level(&Level::Debug), Severity::Low);
    assert_eq!(Severity::from_level(&Level::Info), Severity::Low);
    assert_eq!(Severity::from_level(&Level::Warn), Severity::High);
    assert_eq!(Severity::from_level(&Level::Error), Severity::High);
}

#[test]
fn loki_layer_buffers_when_no_shipper_channel() {
    let mut layer = LokiLayer::buffered_only(Backlog::new(), policy(true));
    layer.handle_envelope(envelope(Level::Error, "ship this"), false);
    layer.handle_envelope(envelope(Level::Info, "buffer this too — no shipper"), false);
    let drained = layer.backlog_mut().drain();
    assert_eq!(drained.len(), 2);
    let levels: Vec<&str> = drained.iter().map(|e| e.level.as_str()).collect();
    assert!(levels.contains(&"ERROR"));
    assert!(levels.contains(&"INFO"));
}

#[test]
fn loki_layer_drops_low_severity_when_unavailable_and_policy_says_drop() {
    let mut layer = LokiLayer::buffered_only(Backlog::new(), policy(true));
    layer.handle_envelope(envelope(Level::Info, "low — dropped"), true);
    layer.handle_envelope(envelope(Level::Error, "high — buffered"), true);
    let drained = layer.backlog_mut().drain();
    assert_eq!(drained.len(), 1, "low-severity dropped");
    assert_eq!(drained[0].level, "ERROR");
    assert_eq!(drained[0].severity, Severity::High);
}

#[test]
fn loki_layer_buffers_low_severity_when_policy_keeps_them() {
    let mut layer = LokiLayer::buffered_only(Backlog::new(), policy(false));
    layer.handle_envelope(envelope(Level::Info, "low — buffered too"), true);
    layer.handle_envelope(envelope(Level::Error, "high"), true);
    assert_eq!(layer.backlog_mut().drain().len(), 2);
}

#[test]
fn loki_layer_uses_channel_when_loki_is_available() {
    let (tx, mut rx) = mpsc::channel::<LogEnvelope>(8);
    let mut layer = LokiLayer::new(tx, Backlog::new(), policy(true));
    layer.handle_envelope(envelope(Level::Error, "via channel"), false);
    let env = rx.try_recv().expect("channel delivered envelope");
    assert_eq!(env.level, "ERROR");
    assert_eq!(env.message, "via channel");
    assert!(layer.backlog().is_empty(), "backlog unused while Loki is up");
}

#[test]
fn loki_layer_keeps_what_the_channel_cannot_take() {
    let (tx, rx) = mpsc::channel::<LogEnvelope>(1);
    let mut layer = LokiLayer::new(tx, Backlog::new(), policy(true));
    layer.handle_envelope(envelope(Level::Info, "a"), false);
    layer.handle_envelope(envelope(Level::Info, "b"), false);
    assert_eq!(layer.backlog().len(), 1, "the channel was full");
    drop(rx);
    layer.handle_envelope(envelope(Level::Warn, "c"), false);
    let kept: Vec<String> =
        layer.backlog_mut().drain().into_iter().map(|e| e.message).collect();
    assert_eq!(kept, vec!["b", "c"]);
}

#[test]
fn records_that_matter_are_never_dropped() {
    for down in [false, true] {
        for drop_low in [false, true] {
            for channel in [false, true] {
                let r = route(Severity::High, down, policy(drop_low), channel);
                assert_ne!(r, Route::Dropped);
            }
        }
    }
}

#[test]
fn fields_follow_the_message() {
    let m = record_field(String::new(), "early", "1");
    assert_eq!(m, "");
    let m = record_field(m, "message", "hello");
    let m = record_field(m, "stage", "risk");
    assert_eq!(m, "hello stage=risk");
    assert_eq!(record_field(m, "message", "again"), "again");
}

#[test]
fn shipper_retries_with_growing_waits() {
    let mut s = LokiShipper::new();
    let mut flags = DegradedState::new();
    let mut backlog = Backlog::new();
    assert!(s.at_hand(&flags, &backlog).is_none());
    let env = envelope(Level::Error, "x");
    assert_eq!(
        s.step(ShipperEvent::Received(env.clone()), &mut flags, &mut backlog),
        ShipperAction::Send
    );
    let mut waits = Vec::new();
    for _ in 0..11 {
        assert_eq!(s.at_hand(&flags, &backlog), Some(&env));
        match s.step(ShipperEvent::PushFailed, &mut flags, &mut backlog) {
            ShipperAction::WaitAndSend(ms) => waits.push(ms),
            other => panic!("expected a wait, got {:?}", other),
        }
        assert!(flags.loki_unavailable());
    }
    assert_eq!(
        waits,
        vec![100, 200, 400, 800, 1_600, 3_200, 6_400, 12_800, 25_600, 30_000, 30_000]
    );
    assert_eq!(
        s.step(ShipperEvent::Pushed, &mut flags, &mut backlog),
        ShipperAction::Receive
    );
    assert!(!flags.loki_unavailable());
}

#[test]
fn shipper_drains_the_backlog_after_an_outage() {
    let mut s = LokiShipper::new();
    let mut flags = DegradedState::new();
    let mut backlog = Backlog::new();
    s.step(ShipperEvent::Received(envelope(Level::Error, "x")), &mut flags, &mut backlog);
    s.step(ShipperEvent::PushFailed, &mut flags, &mut backlog);
    for m in ["a", "b", "c"] {
        backlog.push(envelope(Level::Error, m));
    }
    assert_eq!(
        s.step(ShipperEvent::Pushed, &mut flags, &mut backlog),
        ShipperAction::Send
    );
    assert!(!flags.loki_unavailable());
    assert!(backlog.is_empty());
    assert_eq!(s.at_hand(&flags, &backlog).unwrap().message, "a");
    assert_eq!(
        s.step(ShipperEvent::Pushed, &mut flags, &mut backlog),
        ShipperAction::Send
    );
    assert_eq!(s.at_hand(&flags, &backlog).unwrap().message, "b");
    assert_eq!(
        s.step(ShipperEvent::PushFailed, &mut flags, &mut backlog),
        ShipperAction::Receive
    );
    assert!(flags.loki_unavailable(), "degraded again");
    let rest: Vec<String> = backlog.drain().into_iter().map(|e| e.message).collect();
    assert_eq!(rest, vec!["b", "c"], "the rest is buffered again");
}

#[test]
fn tracer_emits_record_with_non_zero_elapsed_and_no_breach_under_budget() {
    let mut emitter = RecorderEmitter::with_capacity(8);
    let cid = CorrelationId(42);
    let budget_ns = 100_000_000;
    let t = LatencyTracer::start(Stage::RiskCheck, cid, budget_ns, 1_000);
    assert_eq!(t.stage(), Stage::RiskCheck);
    assert_eq!(t.elapsed_ns(2_001_000), 2_000_000);
    let report = t.finish(2_001_000, &mut emitter).expect("armed");
    assert_eq!(report.histogram, Some(Metric::RiskCheckNs));
    let (stage, rec) = emitter.records.pop().expect("record was emitted");
    assert_eq!(stage, Stage::RiskCheck);
    assert!(rec.nanos >= 1_000_000, "elapsed_ns should be >= 1ms, got {}", rec.nanos);
    assert!(!rec.breach, "no breach expected under budget");
    assert_eq!(rec.budget_nanos, budget_ns);
    assert!(emitter.records.pop().is_none(), "exactly one record");
    assert!(emitter.breaches.pop().is_none(), "no breach event expected");
    assert_eq!(
        u128::from_be_bytes(rec.correlation_id),
        cid.as_u128(),
        "correlation_id round-trip"
    );
}

#[test]
fn tracer_emits_breach_when_elapsed_exceeds_budget() {
    let mut emitter = RecorderEmitter::with_capacity(8);
    let t = LatencyTracer::start(Stage::TickIngest, CorrelationId(1), 1, 0);
    t.finish(50_000, &mut emitter);
    let (rec_stage, rec) = emitter.records.pop().expect("record");
    assert_eq!(rec_stage, Stage::TickIngest);
    assert!(rec.breach, "breach=true under sub-ns budget");
    let (br_stage, br) = emitter.breaches.pop().expect("breach event");
    assert_eq!(br_stage, Stage::TickIngest);
    assert_eq!(br, rec, "breach payload identical to record");
    assert!(emitter.records.pop().is_none());
    assert!(emitter.breaches.pop().is_none());
}

#[test]
fn tracer_cancel_suppresses_emission() {
    let mut emitter = RecorderEmitter::with_capacity(2);
    let t = LatencyTracer::start(Stage::FeatureExtraction, CorrelationId(7), 1, 0);
    assert!(t.cancel().finish(10_000, &mut emitter).is_none());
    assert!(emitter.records.pop().is_none(), "cancel suppressed record");
    assert!(emitter.breaches.pop().is_none(), "cancel suppressed breach");
}

#[test]
fn tracer_emits_one_record_per_traversed_stage() {
    let mut emitter = RecorderEmitter::with_capacity(8);
    let cid = CorrelationId(0xCafe_F00D);
    let stages = [
        Stage::TickIngest,
        Stage::FeatureExtraction,
        Stage::RiskCheck,
        Stage::ExecutionRouting,
    ];
    for stage in stages {
        LatencyTracer::start(stage, cid, 100_000_000, 5).finish(9, &mut emitter);
    }
    let mut seen: Vec<Stage> = Vec::new();
    while let Some((s, rec)) = emitter.records.pop() {
        assert_eq!(
            u128::from_be_bytes(rec.correlation_id),
            cid.as_u128(),
            "every record carries the same correlation_id"
        );
        seen.push(s);
    }
    assert_eq!(seen.len(), stages.len(), "one record per stage");
    let seen_set: std::collections::HashSet<_> = seen.into_iter().collect();
    let expected_set: std::collections::HashSet<_> = stages.iter().copied().collect();
    assert_eq!(seen_set, expected_set);
}

#[test]
fn zero_budget_disables_breach_path() {
    let mut emitter = RecorderEmitter::with_capacity(2);
    LatencyTracer::start(Stage::AiScoringFetch, CorrelationId(0), 0, 0)
        .finish(1_000_000, &mut emitter);
    let (_, rec) = emitter.records.pop().expect("record emitted");
    assert!(!rec.breach, "breach must be false when budget_ns == 0");
    assert_eq!(rec.budget_nanos, 0);
    assert!(emitter.breaches.pop().is_none(), "no breach event");
}

#[test]
fn full_recorders_drop_what_comes() {
    let mut emitter = RecorderEmitter::with_capacity(1);
    for n in 0..3u128 {
        LatencyTracer::start(Stage::RiskCheck, CorrelationId(n), 0, 0).finish(1, &mut emitter);
    }
    let (_, rec) = emitter.records.pop().unwrap();
    assert_eq!(u128::from_be_bytes(rec.correlation_id), 0);
    assert!(emitter.records.pop().is_none());
    let mut nobody = NoopEmitter;
    nobody.emit_record(Stage::RiskCheck, &rec);
    nobody.emit_breach(Stage::RiskCheck, &rec);
}

#[test]
fn latency_record_json_renders_correlation_hex_lowercase() {
    let cid_bytes = [
        0x01, 0x23, 0x45, 0x67, 0x89, 0xAB, 0xCD, 0xEF, 0xFE, 0xDC, 0xBA, 0x98, 0x76, 0x54, 0x32,
        0x10,
    ];
    let record = LatencyRecord {
        correlation_id: cid_bytes,
        stage: Stage::RiskCheck.as_u8(),
        nanos: 500,
        budget_nanos: 1_000,
        breach: false,
    };
    let json = LatencyRecordJson::from_fb(&record, Stage::RiskCheck);
    assert_eq!(json.correlation_id_hex, "0123456789abcdeffedcba9876543210");
    assert_eq!(json.stage, "RiskCheck");
    assert_eq!(json.nanos, 500);
    assert_eq!(json.budget_nanos, 1_000);
    assert!(!json.breach);
}

#[test]
fn empty_hex_constant_matches_default_correlation_id() {
    let nil = CorrelationIdHex(CorrelationId(0));
    assert_eq!(nil.to_text(), EMPTY);
    assert_eq!(EMPTY.len(), 32);
    assert_eq!(FIELD_CORRELATION_ID, "correlation_id");
}

#[test]
fn hex_renders_full_32_chars_with_leading_zeros() {
    let hex = CorrelationIdHex::from(CorrelationId(1)).to_text();
    assert_eq!(hex.len(), 32);
    assert_eq!(hex, "00000000000000000000000000000001");
}

#[test]
fn hex_renders_all_low_hex_digits() {
    let cid = CorrelationId(0xABCDEF1234567890_FEDCBA0987654321u128);
    let hex = CorrelationIdHex(cid).to_text();
    assert_eq!(hex, "abcdef1234567890fedcba0987654321");
    assert!(hex.chars().all(|c| c.is_ascii_hexdigit() && !c.is_ascii_uppercase()));
    assert_eq!(hex_text(&[]), "");
}

fn make_trace_id(low_64: u64) -> [u8; 16] {
    let mut b = [0u8; 16];
    b[8..16].copy_from_slice(&low_64.to_be_bytes());
    b
}

fn share(ratio: f64) -> DownsampledSampler {
    DownsampledSampler::with_threshold((u64::MAX as f64 * ratio) as u64)
}

#[test]
fn sampler_keeps_everything_when_not_overloaded() {
    let sampler = share(0.10);
    for low in [1u64, 0, u64::MAX, 1234567] {
        assert_eq!(
            sampler.should_sample(false, &make_trace_id(low)),
            SamplingDecision::RecordAndSample
        );
    }
}

#[test]
fn sampler_drops_above_threshold_when_overloaded() {
    let sampler = share(0.10);
    let kept = sampler.should_sample(true, &make_trace_id(0));
    assert_eq!(kept, SamplingDecision::RecordAndSample);
    let dropped = sampler.should_sample(true, &make_trace_id(u64::MAX));
    assert_eq!(dropped, SamplingDecision::Drop);
}

#[test]
fn sampler_decision_is_deterministic_per_trace_id() {
    let sampler = share(0.5);
    let tid = make_trace_id(0xDEADBEEFCAFEBABE);
    let a = sampler.should_sample(true, &tid);
    let b = sampler.should_sample(true, &tid);
    assert_eq!(a, b);
}

#[test]
fn keep_ratio_zero_drops_all_under_overload() {
    let sampler = share(0.0);
    for low in [0u64, 1, u64::MAX / 2, u64::MAX] {
        assert_eq!(
            sampler.should_sample(true, &make_trace_id(low)),
            SamplingDecision::Drop
        );
    }
}

#[test]
fn sampler_cuts_exactly_at_the_threshold() {
    let sampler = DownsampledSampler::with_threshold(1000);
    assert!(sampler.keep_decision(&make_trace_id(999)));
    assert!(!sampler.keep_decision(&make_trace_id(1000)));
}

#[test]
fn registry_contains_every_named_metric() {
    let all = build_metrics();
    let names: Vec<&str> = all.iter().map(|m| m.name).collect();
    for required in [
        "hedge_tick_ingest_ns",
        "hedge_feature_extract_ns",
        "hedge_risk_check_ns",
        "hedge_exec_route_ns",
        "hedge_broker_latency_ns",
        "hedge_slippage_bps",
        "hedge_websocket_drops_total",
        "hedge_risk_anomaly_total",
        "hedge_trader_emotional_risk",
        "hedge_ai_drift",
        "hedge_budget_breach_total",
    ] {
        assert!(names.contains(&required), "missing metric `{}`", required);
    }
    assert_eq!(names.len(), 11);
    let registry = prometheus::Registry::new();
    for m in &all {
        let opts = prometheus::Opts::new(m.name, m.help);
        let counter = prometheus::Counter::with_opts(opts).unwrap();
        registry.register(Box::new(counter)).expect("names do not clash");
    }
}

#[test]
fn latency_histograms_use_documented_buckets() {
    assert_eq!(
        latency_buckets_ns(),
        vec![100, 250, 500, 1_000, 2_000, 3_000, 5_000, 10_000, 20_000, 50_000, 100_000]
    );
    assert_eq!(
        slippage_buckets_tenths(),
        vec![5, 10, 20, 50, 100, 250, 500, 1_000, 2_500, 5_000]
    );
    let tick = Metric::TickIngestNs.describe();
    assert_eq!(tick.kind, MetricKind::LatencyHistogram);
    assert_eq!(tick.help, "Tick ingest latency, nanoseconds (R28.1)");
}

#[test]
fn labelled_metrics_accept_documented_labels() {
    let label = |m: Metric| m.describe().label;
    assert_eq!(label(Metric::BrokerLatencyNs), Some("broker"));
    assert_eq!(label(Metric::SlippageBps), Some("symbol"));
    assert_eq!(label(Metric::WebsocketDropsTotal), Some("source"));
    assert_eq!(label(Metric::RiskAnomalyTotal), Some("kind"));
    assert_eq!(label(Metric::BudgetBreachTotal), Some("stage"));
    assert_eq!(label(Metric::AiDrift), Some("component"));
    assert_eq!(label(Metric::TraderEmotionalRisk), None);
}

#[test]
fn stages_go_to_their_histograms() {
    assert_eq!(histogram_for(Stage::TickIngest), Some(Metric::TickIngestNs));
    assert_eq!(histogram_for(Stage::FeatureExtraction), Some(Metric::FeatureExtractNs));
    assert_eq!(histogram_for(Stage::AiScoringFetch), Some(Metric::RiskCheckNs));
    assert_eq!(histogram_for(Stage::ExecutionRouting), Some(Metric::ExecRouteNs));
    assert_eq!(histogram_for(Stage::BrokerSubmit), None);
    assert_eq!(Stage::BrokerSubmit.as_u8(), 5);
    assert_eq!(Stage::AiScoringFetch.as_str(), "AiScoringFetch");
}

#[test]
fn a_failed_registration_keeps_its_words() {
    let e = ObsError::register_failed("dup".to_string());
    assert_eq!(e, ObsError::PrometheusRegister("dup".to_string()));
}

#[test]
fn only_a_record_that_came_back_is_kept() {
    let mut backlog: BoundedRingLogBuffer<LOKI_BACKLOG_CAPACITY, LogEnvelope> =
        BoundedRingLogBuffer::new();
    keep_returned(&mut backlog, Ok(()));
    assert!(backlog.is_empty());
    keep_returned(&mut backlog, Err(envelope(Level::Warn, "full")));
    assert_eq!(backlog.len(), 1);
}
