//! Adapters, protocols, symbols, normalisation and distribution.
use hedge::base::schema::Tick;
use hedge::base::types::{CorrelationId, SymbolId};
use hedge::market_data::adapter::{
    build_disconnected_event, build_reconnected_event, reconnect_delay_for, ConnectionStatus,
    LiveWsAdapter, WsAction, WsEvent, RECONNECT_CAP_MS,
};
use hedge::market_data::breadth::BreadthAggregator;
use hedge::market_data::distributor::{Distributor, CHANNEL_CAPACITY};
use hedge::market_data::engine::{
    emit_tick_ingest_latency, FeedStep, MarketDataEngine, TICK_INGEST_BUDGET_NS,
};
use hedge::market_data::error::MarketDataError;
use hedge::market_data::interner::SymbolInterner;
use hedge::market_data::normalizer::{Arrival, Exchange, TickNormalizer};
use hedge::market_data::protocol::{
    BseProtocolPlaceholder, CanonicalJsonTick, MarketDataProtocol, NseProtocolPlaceholder,
    OptionsChainProtocolPlaceholder, RawTick,
};
use hedge::market_data::tick_wire::{decode_tick, tick_to_raw_bytes, TICK_WIRE_SIZE};
use hedge::obs::tracer::RecorderEmitter;
use std::collections::HashMap;
use std::time::Duration;
use tokio::sync::broadcast::error::TryRecvError;

const SAMPLE: &[u8] = br#"{
    "symbol": "RELIANCE",
    "ltp": 250000,
    "bid": 249950,
    "ask": 250050,
    "ltq": 100,
    "total_buy_qty": 5000,
    "total_sell_qty": 4500,
    "ts_exchange_ms": 1700000000000
}"#;

fn number(v: &serde_json::Value, key: &str) -> Result<u64, String> {
    v.get(key)
        .and_then(|x| x.as_u64())
        .ok_or_else(|| format!("missing field `{}`", key))
}

fn decode(raw: &[u8]) -> Result<CanonicalJsonTick, String> {
    let v: serde_json::Value = serde_json::from_slice(raw).map_err(|e| e.to_string())?;
    Ok(CanonicalJsonTick {
        symbol: v
            .get("symbol")
            .and_then(|x| x.as_str())
            .ok_or_else(|| "missing field `symbol`".to_string())?
            .to_string(),
        ltp: number(&v, "ltp")? as i64,
        bid: number(&v, "bid")? as i64,
        ask: number(&v, "ask")? as i64,
        ltq: number(&v, "ltq")?,
        total_buy_qty: number(&v, "total_buy_qty")?,
        total_sell_qty: number(&v, "total_sell_qty")?,
        ts_exchange_ms: number(&v, "ts_exchange_ms")?,
    })
}

fn sample_raw() -> RawTick {
    RawTick {
        symbol: "RELIANCE".into(),
        ltp_paise: 250_000,
        bid_paise: 249_950,
        ask_paise: 250_050,
        ltq: 100,
        total_buy_qty: 5_000,
        total_sell_qty: 4_500,
        ts_exchange_ms: 1_700_000_000_000,
    }
}

fn arrival(id: u128, recv_ns: u64) -> Arrival {
    Arrival { correlation_id: CorrelationId(id), recv_ns }
}

fn make_tick(symbol: u32) -> Tick {
    Tick {
        correlation_id: [0u8; 16],
        symbol,
        exchange: 0,
        ltp_paise: 100,
        bid_paise: 99,
        ask_paise: 101,
        ltq: 1,
        total_buy_qty: 0,
        total_sell_qty: 0,
        ts_exchange_ns: 0,
        ts_recv_ns: 0,
    }
}

#[test]
fn reconnect_backoff_first_nine_attempts_match_table() {
    let expected = [100, 200, 400, 800, 1_600, 3_200, 6_400, 12_800, 25_600];
    for (i, ms) in expected.iter().enumerate() {
        assert_eq!(
            reconnect_delay_for(i as u32),
            Duration::from_millis(*ms),
            "attempt {} should have delay {} ms",
            i,
            ms
        );
    }
}

#[test]
fn reconnect_backoff_caps_at_30_seconds() {
    for attempt in 9u32..=20 {
        assert_eq!(
            reconnect_delay_for(attempt),
            Duration::from_millis(RECONNECT_CAP_MS),
            "attempt {} should cap at 30s",
            attempt
        );
    }
    assert_eq!(RECONNECT_CAP_MS, 30_000);
}

#[test]
fn reconnect_backoff_doubles_then_caps() {
    for i in 0..8u32 {
        let cur = reconnect_delay_for(i).as_millis();
        let next = reconnect_delay_for(i + 1).as_millis();
        assert_eq!(next, cur * 2, "attempt {}: {} ms -> {} ms", i, cur, next);
    }
    let last_table = reconnect_delay_for(8).as_millis() as u64;
    assert!(last_table < RECONNECT_CAP_MS);
    assert_eq!(reconnect_delay_for(9).as_millis() as u64, RECONNECT_CAP_MS);
}

#[test]
fn build_disconnected_event_uses_disconnected_status_and_reason() {
    let at = "2025-01-01T00:00:00+00:00".to_string();
    let evt = build_disconnected_event("nse_l1", 2, "transport drop", at);
    assert_eq!(evt.source, "nse_l1");
    assert_eq!(evt.status, ConnectionStatus::Disconnected);
    assert_eq!(evt.reason.as_deref(), Some("transport drop"));
    assert_eq!(evt.attempt, 2);
    assert!(!evt.at.is_empty(), "rfc3339 timestamp must be populated");
}

#[test]
fn build_reconnected_event_clears_reason() {
    let evt = build_reconnected_event("bse_l2", 5, "2025-01-01T00:00:00+00:00".to_string());
    assert_eq!(evt.source, "bse_l2");
    assert_eq!(evt.status, ConnectionStatus::Reconnected);
    assert!(evt.reason.is_none());
    assert_eq!(evt.attempt, 5);
}

#[test]
fn failed_dials_walk_the_schedule_and_success_resets_it() {
    let mut a = LiveWsAdapter::from_stream("nse_l1", "wss://x", NseProtocolPlaceholder);
    assert_eq!(a.stream_ready(), Ok(()));
    assert_eq!(a.url(), "wss://x");
    for (n, ms) in [100u64, 200, 400].iter().enumerate() {
        let attempt = a.attempt_count();
        assert_eq!(attempt, n as u32);
        let (notice, delay) = a.begin_reconnect("t0".to_string());
        assert_eq!(delay, *ms);
        assert_eq!(notice.attempt, attempt);
        assert_eq!(notice.status, ConnectionStatus::Disconnected);
        assert_eq!(notice.reason.as_deref(), Some("transport drop"));
        let failed = a.finish_reconnect(attempt, Err("refused".to_string()), "t1".to_string());
        assert_eq!(failed, Err(MarketDataError::websocket("nse_l1", "refused")));
        assert_eq!(a.stream_ready(), Err(MarketDataError::websocket("nse_l1", "stream is None")));
    }
    let attempt = a.attempt_count();
    let (_, delay) = a.begin_reconnect("t2".to_string());
    assert_eq!(delay, 800);
    let notice = a.finish_reconnect(attempt, Ok(()), "t3".to_string()).unwrap();
    assert_eq!(notice.status, ConnectionStatus::Reconnected);
    assert_eq!(notice.attempt, 3);
    assert_eq!(notice.at, "t3");
    assert_eq!(a.attempt_count(), 0);
    assert_eq!(a.stream_ready(), Ok(()));
}

#[test]
fn every_stream_event_has_its_action() {
    let a = LiveWsAdapter::from_stream("nse_l1", "wss://x", NseProtocolPlaceholder);
    let lost = |m: &str| WsAction::Return(Err(MarketDataError::websocket("nse_l1", m)));
    assert_eq!(
        a.next_message(WsEvent::Payload(decode(SAMPLE))),
        WsAction::Return(Ok(sample_raw()))
    );
    assert_eq!(
        a.next_message(WsEvent::Payload(Err("bad".to_string()))),
        WsAction::Return(Err(MarketDataError::parse("NseProtocolPlaceholder", "bad")))
    );
    assert_eq!(a.next_message(WsEvent::Ping(vec![1, 2])), WsAction::Pong(vec![1, 2]));
    assert_eq!(a.next_message(WsEvent::Idle), WsAction::Skip);
    assert_eq!(
        a.next_message(WsEvent::Close(Some((1001, "bye".to_string())))),
        WsAction::Skip
    );
    assert_eq!(a.next_message(WsEvent::Close(None)), WsAction::Skip);
    assert_eq!(a.next_message(WsEvent::Failed("reset".to_string())), lost("reset"));
    assert_eq!(a.next_message(WsEvent::Ended), lost("stream ended"));
}

#[test]
fn websocket_helper_renders_source_and_message() {
    let e = MarketDataError::websocket("nse_l1", "connection refused");
    let s = e.to_text();
    assert!(s.contains("nse_l1"), "{}", s);
    assert!(s.contains("connection refused"), "{}", s);
}

#[test]
fn parse_helper_carries_static_protocol_name() {
    let e = MarketDataError::parse("NseProtocolPlaceholder", "expected object");
    match e {
        MarketDataError::Parse { protocol_name, message } => {
            assert_eq!(protocol_name, "NseProtocolPlaceholder");
            assert!(message.contains("expected object"));
        }
        other => panic!("wrong variant: {:?}", other),
    }
}

#[test]
fn market_data_errors_have_their_words() {
    assert_eq!(
        MarketDataError::websocket("nse_l1", "x").to_text(),
        "websocket error on source `nse_l1`: x"
    );
    assert_eq!(
        MarketDataError::parse("P", "x").to_text(),
        "protocol `P` failed to parse payload: x"
    );
    assert_eq!(MarketDataError::Bus("x".into()).to_text(), "bus error: x");
    assert_eq!(
        MarketDataError::ReconnectBudgetExhausted { source_name: "s".into(), attempts: 12 }
            .to_text(),
        "source `s` exceeded reconnect budget after 12 attempts"
    );
    assert_eq!(MarketDataError::Config("x".into()).to_text(), "configuration error: x");
}

#[test]
fn intern_returns_same_id_for_same_string() {
    let mut i = SymbolInterner::new();
    let a = i.intern("RELIANCE");
    let b = i.intern("RELIANCE");
    assert_eq!(a, b);
    assert_eq!(i.len(), 1);
}

#[test]
fn distinct_symbols_get_distinct_ids() {
    let mut i = SymbolInterner::new();
    let r = i.intern("RELIANCE");
    let t = i.intern("TCS");
    let h = i.intern("HDFCBANK");
    assert_ne!(r, t);
    assert_ne!(t, h);
    assert_ne!(r, h);
    assert_eq!(i.len(), 3);
    assert_eq!(i.intern("RELIANCE"), r, "a number once given stays");
}

#[test]
fn first_id_is_one_so_zero_remains_sentinel() {
    let mut i = SymbolInterner::default();
    assert!(i.is_empty());
    let id = i.intern("RELIANCE");
    assert_eq!(id.raw(), 1);
    assert!(!i.is_empty());
}

#[test]
fn get_returns_none_for_unknown_symbol() {
    let mut i = SymbolInterner::new();
    assert!(i.get("UNKNOWN").is_none());
    i.intern("KNOWN");
    assert!(i.get("UNKNOWN").is_none());
    assert!(i.get("KNOWN").is_some());
}

#[test]
fn normalize_copies_paise_fields_verbatim() {
    let mut n = TickNormalizer::new(SymbolInterner::new());
    let raw = sample_raw();
    let tick = n.normalize(&raw, Exchange::Nse, arrival(1, 1));
    assert_eq!(tick.ltp_paise, raw.ltp_paise);
    assert_eq!(tick.bid_paise, raw.bid_paise);
    assert_eq!(tick.ask_paise, raw.ask_paise);
    assert_eq!(tick.ltq, raw.ltq);
    assert_eq!(tick.total_buy_qty, raw.total_buy_qty);
    assert_eq!(tick.total_sell_qty, raw.total_sell_qty);
}

#[test]
fn normalize_stamps_exchange_byte() {
    let mut n = TickNormalizer::new(SymbolInterner::new());
    let raw = sample_raw();
    assert_eq!(n.normalize(&raw, Exchange::Nse, arrival(1, 1)).exchange, 0);
    assert_eq!(n.normalize(&raw, Exchange::Bse, arrival(2, 2)).exchange, 1);
    assert_eq!(Exchange::Nse.as_byte(), 0);
    assert_eq!(Exchange::Bse.as_byte(), 1);
}

#[test]
fn normalize_widens_exchange_ms_to_ns() {
    let mut n = TickNormalizer::new(SymbolInterner::new());
    let mut raw = sample_raw();
    let tick = n.normalize(&raw, Exchange::Nse, arrival(1, 1));
    assert_eq!(tick.ts_exchange_ns, raw.ts_exchange_ms * 1_000_000);
    raw.ts_exchange_ms = u64::MAX / 1_000;
    let tick = n.normalize(&raw, Exchange::Nse, arrival(1, 1));
    assert_eq!(tick.ts_exchange_ns, u64::MAX, "held at the largest number");
}

#[test]
fn normalize_assigns_monotonic_recv_timestamp() {
    let mut n = TickNormalizer::new(SymbolInterner::new());
    let raw = sample_raw();
    let a = n.normalize(&raw, Exchange::Nse, arrival(1, 17));
    let b = n.normalize(&raw, Exchange::Nse, arrival(2, 18));
    assert_eq!(a.ts_recv_ns, 17);
    assert!(b.ts_recv_ns >= a.ts_recv_ns, "ts_recv_ns is monotonic");
}

#[test]
fn normalize_mints_unique_correlation_ids() {
    let mut n = TickNormalizer::new(SymbolInterner::new());
    let raw = sample_raw();
    let a = n.normalize(&raw, Exchange::Nse, arrival(1, 1));
    let b = n.normalize(&raw, Exchange::Nse, arrival(2, 1));
    assert_ne!(
        a.correlation_id, b.correlation_id,
        "every tick must carry a fresh correlation_id"
    );
}

#[test]
fn normalize_with_correlation_preserves_supplied_id() {
    let mut n = TickNormalizer::new(SymbolInterner::new());
    let cid = CorrelationId(0x1122_3344_5566_7788_99AA_BBCC_DDEE_FF00u128);
    let tick = n.normalize_with_correlation(&sample_raw(), Exchange::Nse, cid, 5);
    assert_eq!(u128::from_be_bytes(tick.correlation_id), cid.as_u128());
}

#[test]
fn normalize_resolves_symbol_via_interner() {
    let mut n = TickNormalizer::new(SymbolInterner::new());
    let raw = sample_raw();
    let tick = n.normalize(&raw, Exchange::Nse, arrival(1, 1));
    let id = n.interner().get("RELIANCE").expect("interned");
    assert_eq!(tick.symbol, id.raw());
    let tick2 = n.normalize(&raw, Exchange::Nse, arrival(2, 2));
    assert_eq!(tick2.symbol, tick.symbol);
}

#[test]
fn normalize_distinct_symbols_get_distinct_ids() {
    let mut n = TickNormalizer::new(SymbolInterner::new());
    let mut a = sample_raw();
    a.symbol = "RELIANCE".into();
    let mut b = sample_raw();
    b.symbol = "TCS".into();
    let ta = n.normalize(&a, Exchange::Nse, arrival(1, 1));
    let tb = n.normalize(&b, Exchange::Nse, arrival(2, 2));
    assert_ne!(ta.symbol, tb.symbol);
}

#[test]
fn nse_placeholder_parses_canonical_json() {
    let p = NseProtocolPlaceholder;
    let tick = p.parse(decode(SAMPLE)).expect("parse ok");
    assert_eq!(tick.symbol, "RELIANCE");
    assert_eq!(tick.ltp_paise, 250_000);
    assert_eq!(tick.bid_paise, 249_950);
    assert_eq!(tick.ask_paise, 250_050);
    assert_eq!(tick.ltq, 100);
    assert_eq!(tick.total_buy_qty, 5_000);
    assert_eq!(tick.total_sell_qty, 4_500);
    assert_eq!(tick.ts_exchange_ms, 1_700_000_000_000);
    assert_eq!(p.name(), "NseProtocolPlaceholder");
}

#[test]
fn bse_placeholder_parses_canonical_json() {
    let p = BseProtocolPlaceholder;
    let tick = p.parse(decode(SAMPLE)).expect("parse ok");
    assert_eq!(tick.symbol, "RELIANCE");
    assert_eq!(p.name(), "BseProtocolPlaceholder");
}

#[test]
fn options_chain_placeholder_parses_canonical_json() {
    let p = OptionsChainProtocolPlaceholder;
    let tick = p.parse(decode(SAMPLE)).expect("parse ok");
    assert_eq!(tick.symbol, "RELIANCE");
    assert_eq!(p.name(), "OptionsChainProtocolPlaceholder");
}

#[test]
fn placeholder_rejects_garbage_with_protocol_tagged_error() {
    let p = NseProtocolPlaceholder;
    let err = p.parse(decode(b"not json")).unwrap_err();
    match err {
        MarketDataError::Parse { protocol_name, .. } => {
            assert_eq!(protocol_name, "NseProtocolPlaceholder");
        }
        other => panic!("expected Parse, got {:?}", other),
    }
}

#[test]
fn placeholder_rejects_missing_field() {
    let p = NseProtocolPlaceholder;
    let payload = br#"{"symbol":"X","ltp":1,"bid":1,"ask":1,"ltq":1,"total_buy_qty":1,"total_sell_qty":1}"#;
    let err = p.parse(decode(payload)).unwrap_err();
    assert!(matches!(err, MarketDataError::Parse { .. }));
}

#[test]
fn subscribe_creates_channel_lazily() {
    let mut d = Distributor::new();
    assert_eq!(d.channel_count(), 0);
    let _rx = d.subscribe(SymbolId::new(7));
    assert_eq!(d.channel_count(), 1);
    assert_eq!(CHANNEL_CAPACITY, 1024);
}

#[test]
fn broadcast_delivers_to_every_active_subscriber() {
    let mut d = Distributor::new();
    let mut rx_a = d.subscribe(SymbolId::new(42));
    let mut rx_b = d.subscribe(SymbolId::new(42));
    let mut rx_c = d.subscribe(SymbolId::new(42));
    let t = make_tick(42);
    assert!(d.broadcast(&t));
    assert_eq!(rx_a.try_recv().expect("a"), t);
    assert_eq!(rx_b.try_recv().expect("b"), t);
    assert_eq!(rx_c.try_recv().expect("c"), t);
}

#[test]
fn broadcast_does_not_cross_symbols() {
    let mut d = Distributor::new();
    let mut rx_a = d.subscribe(SymbolId::new(1));
    let _rx_b = d.subscribe(SymbolId::new(2));
    d.broadcast(&make_tick(2));
    match rx_a.try_recv() {
        Err(TryRecvError::Empty) => {}
        other => panic!("expected Empty, got {:?}", other),
    }
}

#[test]
fn broadcast_returns_false_when_no_subscriber() {
    let mut d = Distributor::new();
    assert!(!d.broadcast(&make_tick(99)));
}

#[test]
fn broadcast_returns_false_when_all_subscribers_dropped() {
    let mut d = Distributor::new();
    let rx = d.subscribe(SymbolId::new(7));
    drop(rx);
    assert!(!d.broadcast(&make_tick(7)));
}

#[test]
fn ensure_channel_pre_warms_without_subscriber() {
    let mut d = Distributor::new();
    d.ensure_channel(SymbolId::new(11));
    assert_eq!(d.channel_count(), 1);
    let _rx = d.subscribe(SymbolId::new(11));
    assert_eq!(d.channel_count(), 1);
}

#[test]
fn slow_followers_lose_the_oldest_ticks() {
    let mut d = Distributor::with_capacity(2);
    let mut rx = d.subscribe(SymbolId::new(5));
    for n in 0..3u64 {
        let mut t = make_tick(5);
        t.ltq = n;
        assert!(d.broadcast(&t));
    }
    match rx.try_recv() {
        Err(TryRecvError::Lagged(1)) => {}
        other => panic!("expected Lagged, got {:?}", other),
    }
    assert_eq!(rx.try_recv().unwrap().ltq, 1);
}

#[test]
fn tick_to_raw_bytes_emits_documented_wire_size() {
    let raw = tick_to_raw_bytes(&make_tick(7));
    assert_eq!(raw.len(), TICK_WIRE_SIZE);
}

#[test]
fn tick_to_raw_bytes_distinct_for_distinct_ticks() {
    let a = tick_to_raw_bytes(&make_tick(1));
    let b = tick_to_raw_bytes(&make_tick(2));
    assert_ne!(a.as_slice(), b.as_slice());
}

#[test]
fn tick_to_raw_bytes_uses_little_endian_for_symbol_id() {
    let raw = tick_to_raw_bytes(&make_tick(0x01020304));
    let symbol_bytes = &raw.as_slice()[16..20];
    assert_eq!(symbol_bytes, &[0x04, 0x03, 0x02, 0x01]);
}

#[test]
fn tick_bytes_decode_to_the_tick() {
    let mut t = make_tick(9);
    t.correlation_id[15] = 3;
    t.exchange = -1;
    t.ltp_paise = i64::MIN;
    t.bid_paise = -2;
    t.ts_recv_ns = u64::MAX;
    assert_eq!(decode_tick(&tick_to_raw_bytes(&t)), Some(t));
    assert_eq!(decode_tick(&[0u8; 77]), None);
    assert_eq!(decode_tick(&[0u8; 86]), None);
}

#[test]
fn tick_ingest_budget_matches_design() {
    assert_eq!(TICK_INGEST_BUDGET_NS, 2_000_000);
}

#[test]
fn ticks_pass_through_the_engine() {
    let mut e = MarketDataEngine::new(SymbolInterner::new(), Distributor::new());
    let mut rx = e.distributor_mut().subscribe(SymbolId::new(1));
    let cid = CorrelationId(77);
    let tick = match e.on_message(Ok(sample_raw()), Exchange::Bse, cid, 500) {
        FeedStep::Ingest(t) => t,
        other => panic!("expected a tick, got {:?}", other),
    };
    assert_eq!(tick.symbol, 1);
    assert_eq!(tick.exchange, 1);
    assert_eq!(e.interner().get("RELIANCE"), Some(SymbolId::new(1)));
    let (subject, payload) = e.tick_message(&tick);
    assert_eq!(subject, "md.tick.1");
    assert_eq!(decode_tick(&payload), Some(tick));

    let mut breadth = BreadthAggregator::with_batch_thresholds(
        HashMap::new(),
        HashMap::new(),
        2,
        u64::MAX,
        0,
    );
    let failed = e.ingest_tick(&tick, Err("down".to_string()), &mut breadth, 600);
    assert_eq!(failed, Err(MarketDataError::Bus("down".to_string())));
    assert_eq!(breadth.ticks_in_batch(), 0);
    assert!(rx.try_recv().is_err(), "nothing is distributed");

    let by = e.ingest_tick(&tick, Ok(()), &mut breadth, 700).unwrap();
    assert!(by.sector.is_none() && by.volatility.is_none());
    assert_eq!(rx.try_recv().unwrap(), tick);
    let by = e.ingest_tick(&tick, Ok(()), &mut breadth, 800).unwrap();
    assert!(by.sector.is_some() && by.volatility.is_some());
    assert_eq!(e.distributor().channel_count(), 1);
}

#[test]
fn engine_reconnects_on_a_failed_read() {
    let mut e = MarketDataEngine::new(SymbolInterner::new(), Distributor::new());
    let lost = MarketDataError::websocket("nse_l1", "stream ended");
    let step = e.on_message(Err(lost.clone()), Exchange::Nse, CorrelationId(1), 1);
    assert_eq!(step, FeedStep::Reconnect(lost));
}

#[test]
fn tick_latency_is_told_with_its_breach() {
    let mut sink = RecorderEmitter::with_capacity(4);
    let ok = emit_tick_ingest_latency(&mut sink, CorrelationId(5), TICK_INGEST_BUDGET_NS);
    assert!(!ok.breach);
    let late = emit_tick_ingest_latency(&mut sink, CorrelationId(6), TICK_INGEST_BUDGET_NS + 1);
    assert!(late.breach);
    assert_eq!(late.stage, 0);
    assert_eq!(sink.records.pop().unwrap().1, ok);
    assert_eq!(sink.records.pop().unwrap().1, late);
    assert_eq!(sink.breaches.pop().unwrap().1, late);
    assert!(sink.breaches.pop().is_none());
}

#[test]
fn followers_of_a_symbol_share_its_channel() {
    let mut d = Distributor::new();
    d.ensure_channel(SymbolId::new(1));
    assert!(!d.broadcast(&make_tick(1)));
    let a = d.subscribe(SymbolId::new(1));
    let b = d.subscribe(SymbolId::new(1));
    let c = d.subscribe(SymbolId::new(2));
    assert!(a.same_channel(&b));
    assert!(!a.same_channel(&c));
}

#[test]
fn a_channel_takes_the_ticks_of_its_symbol_in_order() {
    let mut d = Distributor::new();
    let mut rx = d.subscribe(SymbolId::new(1));
    let _other = d.subscribe(SymbolId::new(2));
    for price in [10, 20] {
        let mut t = make_tick(1);
        t.ltp_paise = price;
        assert!(d.broadcast(&t));
        assert!(d.broadcast(&make_tick(2)));
    }
    assert_eq!(rx.try_recv().unwrap().ltp_paise, 10);
    assert_eq!(rx.try_recv().unwrap().ltp_paise, 20);
    assert!(rx.try_recv().is_err());
}
