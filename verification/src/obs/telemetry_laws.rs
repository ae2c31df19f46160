//! What becomes of log records, latencies and traces, in terms of what they are.
use crate::base::schema::{LatencyRecord, Stage};
use crate::base::types::CorrelationId;
use crate::base::wire::{be_value, le_value};
use crate::obs::correlation::{hex, hex_digit};
use crate::obs::logging::{
    kept, route_of, went, with_field, Level, LogEnvelope, LokiLayerConfig, Route, Severity,
};
use crate::obs::loki_shipper::{Phase, ShipperAction, ShipperEvent, ShipperModel};
use crate::obs::metrics::{describes, histogram_of, Metric, MetricSpec};
use crate::obs::sampling::decision;
use crate::obs::tracer::{breaks, records, LatencyEmitter, RecorderEmitter, TracerModel};
use vstd::prelude::*;

verus! {

/// Warnings and errors matter, and nothing else does.
pub proof fn law_warnings_and_errors_matter(level: Level)
    ensures
        Severity::of(level) is High <==> level is Warn || level is Error,
{
}

/// While the store is up a record goes to the shipper, or is kept where there is none.
/// While it is down a record is kept, unless it matters little and the policy is to
/// drop such.
pub proof fn law_records_are_routed_by_the_store(
    severity: Severity,
    config: LokiLayerConfig,
    has_channel: bool,
)
    ensures
        has_channel ==> route_of(severity, false, config, has_channel) is Channel,
        !has_channel ==> route_of(severity, false, config, has_channel) is Backlog,
        severity is High ==> route_of(severity, true, config, has_channel) is Backlog,
        severity is Low && config.drop_low_severity_on_unavailable ==> route_of(
            severity,
            true,
            config,
            has_channel,
        ) is Dropped,
        severity is Low && !config.drop_low_severity_on_unavailable ==> route_of(
            severity,
            true,
            config,
            has_channel,
        ) is Backlog,
{
}

/// A record that is kept is the last of the backlog, which keeps the order and holds
/// the latest two hundred and fifty-six.
pub proof fn law_kept_records_come_last(backlog: Seq<LogEnvelope>, env: LogEnvelope)
    requires
        backlog.len() <= 256,
    ensures
        kept(backlog, env).last() == env,
        kept(backlog, env).len() == if backlog.len() < 256 {
            backlog.len() + 1
        } else {
            256
        },
        kept(backlog, env).drop_last() == backlog.skip(
            backlog.len() + 1 - kept(backlog, env).len(),
        ),
{
    let after = kept(backlog, env);
    assert(after.drop_last() =~= backlog.skip(backlog.len() + 1 - after.len()));
}

/// The message of a record is its message field; the other fields follow it, each as a
/// name and a value, and those that come before it are dropped.
pub proof fn law_fields_follow_the_message(
    message: Seq<char>,
    name: Seq<char>,
    value: Seq<char>,
)
    ensures
        with_field(message, "message"@, value) == value,
        name != "message"@ && message.len() > 0 ==> with_field(message, name, value) == message
            + seq![' '] + name + seq!['='] + value,
        name != "message"@ && message.len() == 0 ==> with_field(message, name, value).len() == 0,
{
    reveal_strlit(" ");
    reveal_strlit("=");
    assert(" "@ =~= seq![' ']);
    assert("="@ =~= seq!['=']);
}

/// A latency record says how long a stage took and what it was given; a budget is
/// broken by what takes longer, and none by what takes just as long.
pub proof fn law_budgets_are_broken_from_above(
    record: LatencyRecord,
    stage: Stage,
    id: CorrelationId,
    elapsed_ns: u64,
    budget_ns: u64,
)
    requires
        records(record, stage, id, elapsed_ns, budget_ns),
    ensures
        record.nanos == elapsed_ns,
        record.budget_nanos == budget_ns,
        record.breach <==> (budget_ns != 0 && elapsed_ns > budget_ns),
        record.stage == stage.number(),
        be_value(record.correlation_id@) == id.0,
        breaks(elapsed_ns, budget_ns) == record.breach,
{
    crate::base::wire::lemma_spans();
    crate::base::wire::lemma_be_round_trip(id.0 as nat, 16);
}

/// The time of a stage runs from its start; a clock that went back gives none.
pub proof fn law_time_runs_from_the_start(m: TracerModel, now_ns: u64)
    ensures
        now_ns >= m.started_ns ==> m.elapsed(now_ns) == now_ns - m.started_ns,
        now_ns < m.started_ns ==> m.elapsed(now_ns) == 0,
{
}

/// The number that the last eight bytes of a trace id spell, the first the highest.
pub open spec fn low_half(id: Seq<u8>) -> int {
    id[15] + 0x100 * id[14] + 0x1_0000 * id[13] + 0x100_0000 * id[12] + 0x1_0000_0000 * id[11]
        + 0x100_0000_0000 * id[10] + 0x1_0000_0000_0000 * id[9] + 0x100_0000_0000_0000 * id[8]
}

/// A trace is dropped just where the store is overloaded and the low half of its id
/// is not below the share.
pub proof fn law_traces_are_kept_by_share(threshold: u64, overloaded: bool, id: Seq<u8>)
    requires
        id.len() == 16,
    ensures
        decision(threshold, overloaded, id) is Drop <==> overloaded && low_half(id) >= threshold,
{
    let r = id.subrange(8, 16).reverse();
    assert(r.subrange(0, 8) =~= r);
    crate::base::wire::law_bytes_count_by_place(r, 0);
    assert(le_value(r) == crate::base::wire::word_at(r, 0));
}

/// Each byte is two digits, the high one first; digits above nine are small letters.
pub proof fn law_hex_has_two_digits_a_byte(bytes: Seq<u8>, b: u8, d: int)
    ensures
        hex(Seq::<u8>::empty()).len() == 0,
        hex(bytes.push(b)) == hex(bytes).push(hex_digit(b as int / 16)).push(
            hex_digit(b as int % 16),
        ),
        0 <= d < 10 ==> hex_digit(d) == ('0' as int + d) as char,
        10 <= d < 16 ==> hex_digit(d) == ('a' as int + d - 10) as char,
{
    assert(bytes.push(b).drop_last() =~= bytes);
}

/// Whether a name ends in some characters.
pub open spec fn ends_in(name: Seq<char>, tail: Seq<char>) -> bool {
    name.len() >= tail.len() && name.skip(name.len() - tail.len()) == tail
}

/// All names begin alike. Latencies are counted in nanoseconds and named so, totals
/// are counters, slippage is in basis points, and the rest are gauges.
pub proof fn law_names_tell_the_kind(m: Metric)
    ensures
        m.name().len() > 6 && m.name().take(6) == seq!['h', 'e', 'd', 'g', 'e', '_'],
        m.kind() is LatencyHistogram <==> ends_in(m.name(), seq!['_', 'n', 's']),
        m.kind() is Counter <==> ends_in(m.name(), seq!['_', 't', 'o', 't', 'a', 'l']),
        m.kind() is SlippageHistogram <==> ends_in(m.name(), seq!['_', 'b', 'p', 's']),
{
    reveal_strlit("hedge_tick_ingest_ns");
    reveal_strlit("hedge_feature_extract_ns");
    reveal_strlit("hedge_risk_check_ns");
    reveal_strlit("hedge_exec_route_ns");
    reveal_strlit("hedge_broker_latency_ns");
    reveal_strlit("hedge_slippage_bps");
    reveal_strlit("hedge_websocket_drops_total");
    reveal_strlit("hedge_risk_anomaly_total");
    reveal_strlit("hedge_budget_breach_total");
    reveal_strlit("hedge_trader_emotional_risk");
    reveal_strlit("hedge_ai_drift");
    let n = m.name();
    assert(n.take(6) =~= seq!['h', 'e', 'd', 'g', 'e', '_']);
    let s = n.skip(n.len() - 3);
    let t = n.skip(n.len() - 6);
    let b = n.skip(n.len() - 4);
    if m.kind() is LatencyHistogram {
        assert(s =~= seq!['_', 'n', 's']);
    } else {
        assert(s[0] != '_' || s[1] != 'n');
    }
    if m.kind() is Counter {
        assert(t =~= seq!['_', 't', 'o', 't', 'a', 'l']);
    } else {
        assert(t[5] != 'l');
    }
    if m.kind() is SlippageHistogram {
        assert(b =~= seq!['_', 'b', 'p', 's']);
    } else {
        assert(b[1] != 'b' || b[2] != 'p');
    }
}

/// What is kept by broker, symbol, source, kind, stage or component is labelled so,
/// and nothing else is labelled.
pub proof fn law_labels_say_by_what_is_split(m: Metric)
    ensures
        m is BrokerLatencyNs ==> m.label() == Some("broker"@),
        m is SlippageBps ==> m.label() == Some("symbol"@),
        m is WebsocketDropsTotal ==> m.label() == Some("source"@),
        m is RiskAnomalyTotal ==> m.label() == Some("kind"@),
        m is BudgetBreachTotal ==> m.label() == Some("stage"@),
        m is AiDrift ==> m.label() == Some("component"@),
        m is TickIngestNs || m is FeatureExtractNs || m is RiskCheckNs || m is ExecRouteNs
            || m is TraderEmotionalRisk ==> m.label() is None,
{
}

/// The latency of a stage goes to the histogram of that stage, fetching scores to that
/// of the risk check, and submitting to none: it is a histogram of latencies without a
/// label.
pub proof fn law_stages_have_their_histograms(stage: Stage)
    ensures
        histogram_of(stage) is None <==> stage is BrokerSubmit,
        histogram_of(stage) matches Some(m) ==> m.kind() is LatencyHistogram && m.label() is None,
        stage is TickIngest <==> histogram_of(stage) == Some(Metric::TickIngestNs),
        stage is FeatureExtraction <==> histogram_of(stage) == Some(Metric::FeatureExtractNs),
        stage is ExecutionRouting <==> histogram_of(stage) == Some(Metric::ExecRouteNs),
        stage is RiskCheck || stage is AiScoringFetch <==> histogram_of(stage) == Some(
            Metric::RiskCheckNs,
        ),
{
}

/// A record that comes in is the record at hand, and stays so until it is delivered:
/// after a failure it is sent again once the wait is over.
pub proof fn law_records_are_sent_until_delivered(m: ShipperModel, env: LogEnvelope)
    ensures
        m.phase is Idle ==> {
            &&& m.after(ShipperEvent::Received(env)).at_hand() == Some(env)
            &&& m.next_action(ShipperEvent::Received(env)) is Send
            &&& m.after(ShipperEvent::Received(env)).backlog == m.backlog
            &&& m.after(ShipperEvent::Received(env)).degraded == m.degraded
        },
        m.phase == Phase::Sending(env) ==> {
            let failed = m.after(ShipperEvent::PushFailed);
            &&& failed.at_hand() == Some(env)
            &&& failed.degraded.loki_unavailable
            &&& failed.degraded.jaeger_overloaded == m.degraded.jaeger_overloaded
            &&& failed.backlog == m.backlog
            &&& m.next_action(ShipperEvent::PushFailed) == ShipperAction::WaitAndSend(m.backoff_ms)
            &&& m.backoff_ms <= 15_000 ==> failed.backoff_ms == 2 * m.backoff_ms
            &&& m.backoff_ms > 15_000 ==> failed.backoff_ms == 30_000
            &&& !m.after(ShipperEvent::Pushed).degraded.loki_unavailable
        },
{
}

/// The first delivery after an outage turns to what was kept, the oldest first, and
/// empties the backlog; any other goes back to waiting, with the shortest wait.
pub proof fn law_delivery_turns_to_the_backlog(m: ShipperModel, env: LogEnvelope)
    requires
        m.phase == Phase::Sending(env),
    ensures
        ({
            let after = m.after(ShipperEvent::Pushed);
            let action = m.next_action(ShipperEvent::Pushed);
            &&& m.degraded.loki_unavailable && m.backlog.len() > 0 ==> after.phase
                == Phase::Draining(m.backlog) && after.backlog.len() == 0 && after.at_hand()
                == Some(m.backlog[0]) && action is Send
            &&& !m.degraded.loki_unavailable || m.backlog.len() == 0 ==> after.phase is Idle
                && after.backoff_ms == 100 && after.backlog == m.backlog && action is Receive
        }),
{
}

/// A drain goes on with the next record until none is left; one that fails marks the
/// store as down and puts what is left, the record at hand first, behind the backlog.
pub proof fn law_drains_go_through_in_order(m: ShipperModel, rest: Seq<LogEnvelope>)
    requires
        m.phase == Phase::Draining(rest),
        rest.len() > 0,
    ensures
        ({
            let pushed = m.after(ShipperEvent::Pushed);
            let failed = m.after(ShipperEvent::PushFailed);
            &&& rest.len() > 1 ==> pushed.at_hand() == Some(rest[1]) && m.next_action(
                ShipperEvent::Pushed,
            ) is Send
            &&& rest.len() == 1 ==> pushed.phase is Idle && pushed.backoff_ms == 100
                && m.next_action(ShipperEvent::Pushed) is Receive
            &&& pushed.backlog == m.backlog && pushed.degraded == m.degraded
            &&& failed.phase is Idle && failed.backoff_ms == 100 && m.next_action(
                ShipperEvent::PushFailed,
            ) is Receive
            &&& failed.degraded.loki_unavailable
            &&& failed.degraded.jaeger_overloaded == m.degraded.jaeger_overloaded
            &&& m.backlog.len() + rest.len() <= 256 ==> failed.backlog == m.backlog + rest
            &&& m.backlog.len() + rest.len() > 256 ==> failed.backlog == (m.backlog + rest).skip(
                m.backlog.len() + rest.len() - 256,
            )
        }),
{
}

/// A description gives the name, the help, the kind and the label of its metric.
pub proof fn law_descriptions_are_of_their_metric(d: MetricSpec, m: Metric)
    requires
        describes(d, m),
    ensures
        d.metric == m,
        d.name@ == m.name(),
        d.help@ == m.help(),
        d.kind == m.kind(),
        d.label is Some <==> m.label() is Some,
        d.label matches Some(label) ==> m.label() == Some(label@),
{
}

/// A shipper that waits takes a record in, and one that sends learns how that went.
pub proof fn law_events_come_when_awaited(m: ShipperModel, env: LogEnvelope)
    ensures
        m.expects(ShipperEvent::Received(env)) <==> m.phase is Idle,
        m.expects(ShipperEvent::Pushed) <==> !(m.phase is Idle),
        m.expects(ShipperEvent::PushFailed) <==> !(m.phase is Idle),
{
}

/// A record that is dropped leaves no trace, one that is kept is not handed on, and one
/// for the shipper is handed on or kept, never both and never neither.
pub proof fn law_records_go_one_way(
    env: LogEnvelope,
    handed: Seq<LogEnvelope>,
    held: Seq<LogEnvelope>,
    handed_after: Seq<LogEnvelope>,
    held_after: Seq<LogEnvelope>,
)
    ensures
        went(Route::Dropped, env, handed, held, handed_after, held_after) ==> handed_after == handed
            && held_after == held,
        went(Route::Backlog, env, handed, held, handed_after, held_after) ==> handed_after == handed
            && held_after.last() == env,
        went(Route::Channel, env, handed, held, handed_after, held_after) ==> (handed_after
            == handed.push(env) && held_after == held) || (handed_after == handed
            && held_after.last() == env),
{
}

/// A queue takes an item at its end while there is room, and stays as it is when full.
pub proof fn law_full_queues_stay(
    before: RecorderEmitter,
    after: RecorderEmitter,
    stage: Stage,
    record: LatencyRecord,
)
    ensures
        RecorderEmitter::takes_record(before, after, stage, record) ==> {
            &&& after.breaches == before.breaches
            &&& after.records.bound() == before.records.bound()
            &&& before.records@.len() < before.records.bound() ==> after.records@
                == before.records@.push((stage, record))
            &&& before.records@.len() >= before.records.bound() ==> after.records@
                == before.records@
        },
        RecorderEmitter::takes_breach(before, after, stage, record) ==> {
            &&& after.records == before.records
            &&& after.breaches.bound() == before.breaches.bound()
            &&& before.breaches@.len() < before.breaches.bound() ==> after.breaches@
                == before.breaches@.push((stage, record))
            &&& before.breaches@.len() >= before.breaches.bound() ==> after.breaches@
                == before.breaches@
        },
{
}

} // verus!
