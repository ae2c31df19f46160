//! The live book, its metrics, the patterns in it, its heatmap and the engine.
use hedge::base::bounded::BoundedEvents;
use hedge::base::schema::{BookLevel, OrderBook, Tick};
use hedge::base::types::{Px, Side, SymbolId};
use hedge::market_data::tick_wire::tick_to_raw_bytes;
use hedge::orderflow::book::{LiveBook, MAX_BOOK_LEVELS};
use hedge::orderflow::engine::OrderflowEngine;
use hedge::orderflow::events::{
    detect_liquidity_gap, Detector, OrderflowEvent, Ratio, SPOOF_PENDING_CAPACITY,
};
use hedge::orderflow::feed::{book_from_quote, ingest_tick_bytes, read_quote, QuoteMessage};
use hedge::orderflow::heatmap::{HeatmapSnapshot, OrderflowHeatmap};
use hedge::orderflow::metrics::{
    bid_ask_imbalance, liquidity_pressure, OrderflowSnapshot, RollingDelta,
};
use hedge::orderflow::war_mode::{
    WarModeProfile, INFINITY_BITS, NORMAL_MIN_CONFIDENCE, NORMAL_SCAN_MULTIPLIER,
};

fn value(r: Ratio) -> f32 {
    if r.den == 0 {
        0.0
    } else {
        (r.num as f64 / r.den as f64) as f32
    }
}

fn lvl(price_paise: i64, qty: u64) -> BookLevel {
    BookLevel {
        price_paise,
        qty,
        orders: 1,
    }
}

fn make_book(symbol: u32, ts_ns: u64, bids: &[BookLevel], asks: &[BookLevel]) -> OrderBook {
    OrderBook {
        correlation_id: [0u8; 16],
        symbol,
        exchange: 0,
        bid_levels: bids.to_vec(),
        ask_levels: asks.to_vec(),
        ts_ns,
    }
}

fn book_with(ts_ns: u64, bids: &[BookLevel], asks: &[BookLevel]) -> OrderBook {
    make_book(1, ts_ns, bids, asks)
}

fn book(bids: &[BookLevel], asks: &[BookLevel]) -> LiveBook {
    let mut b = LiveBook::new();
    b.apply(&book_with(1, bids, asks));
    b
}

fn make_tick(symbol: u32, price_paise: i64, qty: u64) -> Tick {
    Tick {
        correlation_id: [0u8; 16],
        symbol,
        exchange: 0,
        ltp_paise: price_paise,
        bid_paise: 0,
        ask_paise: 0,
        ltq: qty,
        total_buy_qty: 0,
        total_sell_qty: 0,
        ts_exchange_ns: 0,
        ts_recv_ns: 0,
    }
}

#[test]
fn new_book_is_empty() {
    let b = LiveBook::new();
    assert!(b.is_empty());
    assert!(b.top_bid().is_none());
    assert!(b.top_ask().is_none());
    assert_eq!(b.last_seq, 0);
}

#[test]
fn apply_replaces_both_sides_and_advances_last_seq() {
    let mut b = LiveBook::new();
    let book = book_with(
        100,
        &[lvl(10000, 50), lvl(9900, 100)],
        &[lvl(10100, 40), lvl(10200, 80)],
    );
    assert!(b.apply(&book));
    assert_eq!(b.last_seq, 100);
    assert_eq!(b.top_bid().unwrap().price_paise, 10000);
    assert_eq!(b.top_ask().unwrap().price_paise, 10100);
    assert_eq!(b.bid_levels().len(), 2);
    assert_eq!(b.ask_levels().len(), 2);
}

#[test]
fn out_of_order_update_is_rejected() {
    let mut b = LiveBook::new();
    let first = book_with(200, &[lvl(10000, 50)], &[lvl(10100, 40)]);
    let stale = book_with(100, &[lvl(11111, 999)], &[lvl(22222, 888)]);
    assert!(b.apply(&first));
    assert!(!b.apply(&stale), "stale update must be rejected");
    assert_eq!(b.top_bid().unwrap().price_paise, 10000);
    assert_eq!(b.top_ask().unwrap().price_paise, 10100);
    assert_eq!(b.last_seq, 200);
}

#[test]
fn duplicate_seq_is_rejected() {
    let mut b = LiveBook::new();
    let first = book_with(50, &[lvl(10000, 1)], &[lvl(10100, 1)]);
    let dup = book_with(50, &[lvl(10500, 1)], &[lvl(10600, 1)]);
    assert!(b.apply(&first));
    assert!(!b.apply(&dup));
    assert_eq!(b.top_bid().unwrap().price_paise, 10000);
}

#[test]
fn first_apply_accepts_any_ts() {
    let mut b = LiveBook::new();
    let book = book_with(0, &[lvl(1, 1)], &[lvl(2, 1)]);
    assert!(b.apply(&book));
    assert_eq!(b.last_seq, 0);
}

#[test]
fn apply_truncates_oversized_payload_to_max_levels() {
    let mut b = LiveBook::new();
    let bids: Vec<BookLevel> = (0..25).map(|i| lvl(10000 - i, 1)).collect();
    let asks: Vec<BookLevel> = (0..25).map(|i| lvl(10100 + i, 1)).collect();
    let book = book_with(1, &bids, &asks);
    assert!(b.apply(&book));
    assert_eq!(b.bid_levels().len(), MAX_BOOK_LEVELS);
    assert_eq!(b.ask_levels().len(), MAX_BOOK_LEVELS);
}

#[test]
fn clear_resets_state_and_last_seq() {
    let mut b = LiveBook::new();
    let book = book_with(99, &[lvl(10000, 50)], &[lvl(10100, 40)]);
    b.apply(&book);
    b.clear();
    assert!(b.is_empty());
    assert_eq!(b.last_seq, 0);
}

#[test]
fn top_bid_px_and_top_ask_px_round_trip_through_px() {
    let mut b = LiveBook::new();
    let book = book_with(1, &[lvl(15050, 10)], &[lvl(15075, 12)]);
    b.apply(&book);
    assert_eq!(b.top_bid_px(), Some(Px::from_paise(15050)));
    assert_eq!(b.top_ask_px(), Some(Px::from_paise(15075)));
}

#[test]
fn second_apply_replaces_first_in_place() {
    let mut b = LiveBook::new();
    let first = book_with(1, &[lvl(100, 1), lvl(99, 1)], &[lvl(101, 1)]);
    let second = book_with(2, &[lvl(110, 5)], &[lvl(120, 5), lvl(121, 5), lvl(122, 5)]);
    b.apply(&first);
    b.apply(&second);
    assert_eq!(b.bid_levels().len(), 1);
    assert_eq!(b.ask_levels().len(), 3);
    assert_eq!(b.top_bid().unwrap().price_paise, 110);
    assert_eq!(b.top_ask().unwrap().price_paise, 120);
}

#[test]
fn snapshot_imbalance_tracks_top_of_book() {
    let mut eng = OrderflowEngine::new();
    let book = make_book(1, 1, &[lvl(100, 30)], &[lvl(101, 10)]);
    let snap = eng.ingest_book(&book, 1).unwrap();
    assert!((value(snap.bid_ask_imbalance) - 0.5).abs() < 1e-6);
    assert!(value(snap.liquidity_pressure) >= -1.0 && value(snap.liquidity_pressure) <= 1.0);
    assert_eq!(snap.aggressive_buyer_volume, 0);
    assert_eq!(snap.aggressive_seller_volume, 0);
    assert_eq!(snap.rolling_delta, 0);
}

#[test]
fn rolling_delta_accumulates_through_aggressive_trades() {
    let mut eng = OrderflowEngine::new();
    let book = make_book(1, 1, &[lvl(100, 5)], &[lvl(101, 5)]);
    eng.ingest_book(&book, 1);

    let tick_buy = make_tick(1, 101, 10);
    let s1 = eng.ingest_tick(&tick_buy, 100);
    assert_eq!(s1.aggressive_buyer_volume, 10);
    assert_eq!(s1.aggressive_seller_volume, 0);
    assert_eq!(s1.rolling_delta, 10);

    let tick_sell = make_tick(1, 100, 4);
    let s2 = eng.ingest_tick(&tick_sell, 200);
    assert_eq!(s2.aggressive_buyer_volume, 10);
    assert_eq!(s2.aggressive_seller_volume, 4);
    assert_eq!(s2.rolling_delta, 6);
}

#[test]
fn snapshot_includes_liquidity_gap_event() {
    let mut eng = OrderflowEngine::new();
    let book = make_book(
        1,
        1,
        &[lvl(10000, 10), lvl(9994, 5)],
        &[lvl(10100, 10), lvl(10101, 5)],
    );
    let snap = eng.ingest_book(&book, 1).unwrap();
    assert_eq!(snap.events.len(), 1);
    match snap.events.as_slice()[0] {
        OrderflowEvent::LiquidityGap { side, .. } => assert_eq!(side, Side::Buy),
        ref other => panic!("expected LiquidityGap, got {:?}", other),
    }
}

#[test]
fn out_of_order_book_returns_none() {
    let mut eng = OrderflowEngine::new();
    let first = make_book(1, 100, &[lvl(100, 5)], &[lvl(101, 5)]);
    let stale = make_book(1, 50, &[lvl(99, 5)], &[lvl(102, 5)]);
    assert!(eng.ingest_book(&first, 100).is_some());
    assert!(eng.ingest_book(&stale, 50).is_none());
}

#[test]
fn tracked_symbol_count_grows_with_distinct_symbols() {
    let mut eng = OrderflowEngine::new();
    eng.ensure_symbol(SymbolId::new(1));
    eng.ensure_symbol(SymbolId::new(2));
    eng.ensure_symbol(SymbolId::new(1));
    assert_eq!(eng.tracked_symbol_count(), 2);
}

#[test]
fn engine_war_mode_handle_starts_inactive_and_can_be_activated() {
    let mut eng = OrderflowEngine::new();
    assert!(!eng.war_mode().is_active());
    eng.war_mode().activate(2.0f32.to_bits(), 0.6f32.to_bits());
    assert!(eng.war_mode().is_active());
    assert_eq!(eng.war_mode().scan_multiplier(), 2.0f32.to_bits());
    assert_eq!(eng.war_mode().sensitivity_factor(), 2.0f32.to_bits());
    eng.war_mode().deactivate();
    assert!(!eng.war_mode().is_active());
    assert_eq!(eng.war_mode().sensitivity_factor(), NORMAL_SCAN_MULTIPLIER);
}

#[test]
fn liquidity_pressure_in_unit_range_for_arbitrary_book() {
    let mut eng = OrderflowEngine::new();
    let book = make_book(
        1,
        1,
        &[lvl(100, 7), lvl(99, 3), lvl(98, 5)],
        &[lvl(101, 11), lvl(102, 1), lvl(103, 9)],
    );
    let snap = eng.ingest_book(&book, 1).unwrap();
    assert!(value(snap.liquidity_pressure) >= -1.0 && value(snap.liquidity_pressure) <= 1.0);
}

#[test]
fn heatmap_subscriber_observes_book_updates() {
    let mut eng = OrderflowEngine::new();
    eng.ensure_symbol(SymbolId::new(7));
    let mut rx = eng.subscribe_heatmap(SymbolId::new(7)).expect("subscribed");
    let book = make_book(7, 1, &[lvl(100, 5)], &[lvl(101, 4)]);
    eng.ingest_book(&book, 99);
    assert!(rx.has_changed().expect("watch alive"));
    let snap = rx.borrow_and_update().clone();
    assert_eq!(snap.symbol, SymbolId::new(7));
    assert_eq!(snap.ts_ns, 99);
    assert_eq!(snap.rows[0].bid_qty, 5);
    assert_eq!(snap.rows[0].ask_qty, 4);
}

#[test]
fn empty_snapshot_has_zero_rows() {
    let s = HeatmapSnapshot::empty(SymbolId::new(1));
    assert!(s.is_empty());
    assert_eq!(s.symbol, SymbolId::new(1));
    assert_eq!(s.ts_ns, 0);
    assert_eq!(s.rows.len(), MAX_BOOK_LEVELS);
}

#[test]
fn fill_from_populates_rows_in_order() {
    let b = book(
        &[lvl(100, 5), lvl(99, 4)],
        &[lvl(101, 3), lvl(102, 2), lvl(103, 1)],
    );
    let s = HeatmapSnapshot::from_book(SymbolId::new(1), &b, 7);
    assert_eq!(s.ts_ns, 7);
    assert_eq!(s.rows[0].bid_price_paise, 100);
    assert_eq!(s.rows[0].bid_qty, 5);
    assert_eq!(s.rows[1].bid_price_paise, 99);
    assert_eq!(s.rows[2].bid_price_paise, 0);
    assert_eq!(s.rows[2].ask_price_paise, 103);
    assert_eq!(s.rows[2].ask_qty, 1);
}

#[test]
fn watch_subscribers_observe_replaced_snapshot() {
    let mut h = OrderflowHeatmap::new(SymbolId::new(42));
    let mut rx = h.subscribe();
    let b = book(&[lvl(100, 5)], &[lvl(101, 4)]);
    h.publish_from_book(&b, 99);
    assert!(rx.has_changed().expect("channel alive"));
    let s = rx.borrow_and_update().clone();
    assert_eq!(s.symbol, SymbolId::new(42));
    assert_eq!(s.ts_ns, 99);
    assert_eq!(s.rows[0].bid_qty, 5);
    assert_eq!(s.rows[0].ask_qty, 4);
}

#[test]
fn receiver_count_tracks_subscribers() {
    let mut h = OrderflowHeatmap::new(SymbolId::new(1));
    assert_eq!(h.receiver_count(), 0);
    let _r1 = h.subscribe();
    assert_eq!(h.receiver_count(), 1);
    let _r2 = h.subscribe();
    assert_eq!(h.receiver_count(), 2);
}

#[test]
fn liquidity_gap_emitted_when_gap_exceeds_three_ticks() {
    let mut book = LiveBook::new();
    book.apply(&book_with(
        1,
        &[lvl(10000, 10), lvl(9994, 10)],
        &[lvl(10100, 10), lvl(10101, 10)],
    ));

    let mut det = Detector::new();
    let mut out: BoundedEvents<OrderflowEvent, 4> = BoundedEvents::new();
    det.observe_book(&book, 1, &mut out);

    assert_eq!(out.len(), 1, "should emit exactly one gap event");
    match out.as_slice()[0] {
        OrderflowEvent::LiquidityGap { side, level, size } => {
            assert_eq!(side, Side::Buy);
            assert_eq!(level, Px::from_paise(10000));
            assert_eq!(size, 10);
        }
        other => panic!("expected LiquidityGap, got {:?}", other),
    }
}

#[test]
fn liquidity_gap_not_emitted_when_gap_within_threshold() {
    let mut book = LiveBook::new();
    book.apply(&book_with(
        1,
        &[lvl(10000, 10), lvl(9997, 10)],
        &[lvl(10100, 10), lvl(10103, 10)],
    ));
    let mut det = Detector::new();
    let mut out: BoundedEvents<OrderflowEvent, 4> = BoundedEvents::new();
    det.observe_book(&book, 1, &mut out);
    assert_eq!(out.len(), 0);
}

#[test]
fn absorption_emitted_when_trade_volume_exceeds_visible_at_top_of_opposite_side() {
    let mut book = LiveBook::new();
    book.apply(&book_with(1, &[lvl(9900, 100)], &[lvl(10000, 5)]));
    let mut det = Detector::new();

    let mut tmp: BoundedEvents<OrderflowEvent, 4> = BoundedEvents::new();
    det.observe_book(&book, 1, &mut tmp);

    let tick = make_tick(1, 10000, 20);
    let mut out: BoundedEvents<OrderflowEvent, 4> = BoundedEvents::new();
    det.observe_trade(&tick, &book, &mut out);

    let has_absorption = out
        .as_slice()
        .iter()
        .any(|e| matches!(e, OrderflowEvent::Absorption { .. }));
    let has_hidden = out
        .as_slice()
        .iter()
        .any(|e| matches!(e, OrderflowEvent::HiddenLiquidity { .. }));
    assert!(has_absorption, "expected Absorption, got {:?}", out);
    assert!(has_hidden, "expected HiddenLiquidity, got {:?}", out);
}

#[test]
fn no_absorption_when_trade_volume_within_visible() {
    let mut book = LiveBook::new();
    book.apply(&book_with(1, &[lvl(9900, 100)], &[lvl(10000, 50)]));
    let mut det = Detector::new();
    let mut tmp: BoundedEvents<OrderflowEvent, 4> = BoundedEvents::new();
    det.observe_book(&book, 1, &mut tmp);

    let tick = make_tick(1, 10000, 5);
    let mut out: BoundedEvents<OrderflowEvent, 4> = BoundedEvents::new();
    det.observe_trade(&tick, &book, &mut out);
    assert_eq!(out.len(), 0);
}

#[test]
fn spoofing_emitted_when_large_quote_disappears_within_window() {
    let mut det = Detector::new();
    let mut book = LiveBook::new();
    for i in 0..30u64 {
        book.apply(&book_with(
            i + 1,
            &[lvl(9900, 10)],
            &[lvl(10000, 10)],
        ));
        let mut out: BoundedEvents<OrderflowEvent, 4> = BoundedEvents::new();
        det.observe_book(&book, (i + 1) * 1_000_000, &mut out);
    }

    let huge_ts = 1_000_000_000u64;
    book.apply(&book_with(31, &[lvl(9950, 1000)], &[lvl(10000, 10)]));
    let mut out1: BoundedEvents<OrderflowEvent, 4> = BoundedEvents::new();
    det.observe_book(&book, huge_ts, &mut out1);
    assert!(det.pending_len() >= 1, "spoof candidate not registered");

    let cancel_ts = huge_ts + 100_000_000;
    book.apply(&book_with(32, &[lvl(9900, 10)], &[lvl(10000, 10)]));
    let mut out2: BoundedEvents<OrderflowEvent, 4> = BoundedEvents::new();
    det.observe_book(&book, cancel_ts, &mut out2);

    let spoofs: Vec<_> = out2
        .as_slice()
        .iter()
        .filter(|e| matches!(e, OrderflowEvent::Spoofing { .. }))
        .collect();
    assert_eq!(spoofs.len(), 1, "got events: {:?}", out2);
    match spoofs[0] {
        OrderflowEvent::Spoofing {
            side,
            level,
            evidence_score,
        } => {
            assert_eq!(*side, Side::Buy);
            assert_eq!(*level, Px::from_paise(9950));
            let evidence_score = value(*evidence_score);
            assert!((0.0..=1.0).contains(&evidence_score));
            assert!(evidence_score > 0.5, "evidence too low: {}", evidence_score);
        }
        _ => unreachable!(),
    }
}

#[test]
fn no_spoofing_when_large_quote_persists_past_window() {
    let mut det = Detector::new();
    let mut book = LiveBook::new();
    for i in 0..30u64 {
        book.apply(&book_with(i + 1, &[lvl(9900, 10)], &[lvl(10000, 10)]));
        let mut out: BoundedEvents<OrderflowEvent, 4> = BoundedEvents::new();
        det.observe_book(&book, (i + 1) * 1_000_000, &mut out);
    }
    let huge_ts = 1_000_000_000u64;
    book.apply(&book_with(31, &[lvl(9950, 1000)], &[lvl(10000, 10)]));
    let mut out1: BoundedEvents<OrderflowEvent, 4> = BoundedEvents::new();
    det.observe_book(&book, huge_ts, &mut out1);

    let later_ts = huge_ts + 600_000_000;
    let mut out2: BoundedEvents<OrderflowEvent, 4> = BoundedEvents::new();
    det.observe_book(&book, later_ts, &mut out2);
    let spoofs: Vec<_> = out2
        .as_slice()
        .iter()
        .filter(|e| matches!(e, OrderflowEvent::Spoofing { .. }))
        .collect();
    assert!(spoofs.is_empty(), "should not flag a resting order");
}

#[test]
fn no_spoofing_when_quote_fills() {
    let mut det = Detector::new();
    let mut book = LiveBook::new();
    for i in 0..30u64 {
        book.apply(&book_with(i + 1, &[lvl(9900, 10)], &[lvl(10000, 10)]));
        let mut out: BoundedEvents<OrderflowEvent, 4> = BoundedEvents::new();
        det.observe_book(&book, (i + 1) * 1_000_000, &mut out);
    }
    let huge_ts = 1_000_000_000u64;
    book.apply(&book_with(31, &[lvl(9950, 1000)], &[lvl(10000, 10)]));
    let mut out1: BoundedEvents<OrderflowEvent, 4> = BoundedEvents::new();
    det.observe_book(&book, huge_ts, &mut out1);

    let tick = make_tick(1, 9950, 1000);
    let mut tout: BoundedEvents<OrderflowEvent, 4> = BoundedEvents::new();
    det.observe_trade(&tick, &book, &mut tout);

    assert_eq!(det.pending_len(), 0);

    let cancel_ts = huge_ts + 100_000_000;
    book.apply(&book_with(32, &[lvl(9900, 10)], &[lvl(10000, 10)]));
    let mut out2: BoundedEvents<OrderflowEvent, 4> = BoundedEvents::new();
    det.observe_book(&book, cancel_ts, &mut out2);
    let spoofs: Vec<_> = out2
        .as_slice()
        .iter()
        .filter(|e| matches!(e, OrderflowEvent::Spoofing { .. }))
        .collect();
    assert!(spoofs.is_empty());
}

#[test]
fn pending_capacity_does_not_exceed_array_cap() {
    let mut det = Detector::new();
    let mut book = LiveBook::new();
    for i in 0..30u64 {
        book.apply(&book_with(i + 1, &[lvl(9900, 1)], &[lvl(10000, 1)]));
        let mut out: BoundedEvents<OrderflowEvent, 4> = BoundedEvents::new();
        det.observe_book(&book, (i + 1) * 1_000_000, &mut out);
    }
    for j in 0..200u64 {
        book.apply(&book_with(
            100 + j,
            &[lvl(9000 + j as i64, 1000)],
            &[lvl(10000, 1)],
        ));
        let mut out: BoundedEvents<OrderflowEvent, 4> = BoundedEvents::new();
        det.observe_book(&book, 1_000_000_000 + j * 10_000_000, &mut out);
    }
    assert!(det.pending_len() <= SPOOF_PENDING_CAPACITY);
}

#[test]
fn imbalance_is_zero_for_equal_top_qty() {
    let b = book(&[lvl(100, 50)], &[lvl(101, 50)]);
    assert_eq!(value(bid_ask_imbalance(&b)), 0.0);
}

#[test]
fn imbalance_is_one_when_only_bid_present() {
    let b = book(&[lvl(100, 100)], &[]);
    assert_eq!(value(bid_ask_imbalance(&b)), 1.0);
}

#[test]
fn imbalance_is_minus_one_when_only_ask_present() {
    let b = book(&[], &[lvl(101, 100)]);
    assert_eq!(value(bid_ask_imbalance(&b)), -1.0);
}

#[test]
fn imbalance_is_in_range_for_arbitrary_input() {
    let b = book(&[lvl(100, 7)], &[lvl(101, 13)]);
    let v = value(bid_ask_imbalance(&b));
    assert!(v >= -1.0 && v <= 1.0, "{v} out of range");
    assert!((v + 0.3).abs() < 1e-6);
}

#[test]
fn imbalance_zero_for_empty_book() {
    let b = book(&[], &[]);
    assert_eq!(value(bid_ask_imbalance(&b)), 0.0);
}

#[test]
fn liquidity_pressure_zero_for_balanced_top5() {
    let b = book(
        &[
            lvl(100, 10),
            lvl(99, 10),
            lvl(98, 10),
            lvl(97, 10),
            lvl(96, 10),
        ],
        &[
            lvl(101, 10),
            lvl(102, 10),
            lvl(103, 10),
            lvl(104, 10),
            lvl(105, 10),
        ],
    );
    assert!(value(liquidity_pressure(&b)).abs() < 1e-6);
}

#[test]
fn liquidity_pressure_clamped_to_one_for_only_bids() {
    let b = book(&[lvl(100, 10), lvl(99, 10), lvl(98, 10)], &[]);
    assert_eq!(value(liquidity_pressure(&b)), 1.0);
}

#[test]
fn liquidity_pressure_clamped_to_minus_one_for_only_asks() {
    let b = book(&[], &[lvl(101, 10), lvl(102, 10), lvl(103, 10)]);
    assert_eq!(value(liquidity_pressure(&b)), -1.0);
}

#[test]
fn liquidity_pressure_uses_only_top_five_levels() {
    let b = book(
        &[
            lvl(100, 1),
            lvl(99, 1),
            lvl(98, 1),
            lvl(97, 1),
            lvl(96, 1),
            lvl(95, 1_000_000),
        ],
        &[lvl(101, 5)],
    );
    let v = value(liquidity_pressure(&b));
    assert!(v.abs() < 1e-6, "got {v}");
}

#[test]
fn liquidity_pressure_zero_for_empty_book() {
    let b = book(&[], &[]);
    assert_eq!(value(liquidity_pressure(&b)), 0.0);
}

#[test]
fn rolling_delta_records_and_recovers_volume() {
    let mut rd = RollingDelta::with_window(1_000_000_000);
    rd.record(0, 10, 0);
    rd.record(0, 0, 5);
    assert_eq!(rd.buyer_volume(0), 10);
    assert_eq!(rd.seller_volume(0), 5);
    assert_eq!(rd.signed_delta(0), 5);
}

#[test]
fn rolling_delta_drops_old_buckets() {
    let mut rd = RollingDelta::with_window(1_000_000_000);
    rd.record(0, 10, 0);
    rd.record(2_000_000_000, 1, 0);
    let v = rd.buyer_volume(2_000_000_000);
    assert_eq!(v, 1, "old buyer volume should be dropped, got {v}");
}

#[test]
fn rolling_delta_signed_delta_within_i64_bounds() {
    let mut rd = RollingDelta::with_window(1_000_000_000);
    rd.record(0, 10_000, 1_000);
    let d = rd.signed_delta(0);
    assert_eq!(d, 9_000);
}

#[test]
fn empty_snapshot_has_safe_defaults() {
    let s = OrderflowSnapshot::empty(SymbolId::new(7));
    assert_eq!(s.symbol, SymbolId::new(7));
    assert_eq!(value(s.bid_ask_imbalance), 0.0);
    assert_eq!(value(s.liquidity_pressure), 0.0);
    assert_eq!(s.aggressive_buyer_volume, 0);
    assert_eq!(s.aggressive_seller_volume, 0);
    assert_eq!(s.rolling_delta, 0);
    assert!(s.events.is_empty());
}

#[test]
fn default_is_inactive_with_normal_baseline() {
    let p = WarModeProfile::default();
    assert!(!p.is_active());
    assert_eq!(p.scan_multiplier(), NORMAL_SCAN_MULTIPLIER);
    assert_eq!(p.min_confidence(), NORMAL_MIN_CONFIDENCE);
    assert_eq!(p.sensitivity_factor(), NORMAL_SCAN_MULTIPLIER);
}

#[test]
fn activate_sets_fields_and_flag() {
    let mut p = WarModeProfile::inactive();
    p.activate((2.0f32).to_bits(), (0.6f32).to_bits());
    assert!(p.is_active());
    assert_eq!(p.scan_multiplier(), (2.0f32).to_bits());
    assert_eq!(p.min_confidence(), (0.6f32).to_bits());
    assert_eq!(p.sensitivity_factor(), (2.0f32).to_bits());
}

#[test]
fn deactivate_resets_to_baseline() {
    let mut p = WarModeProfile::inactive();
    p.activate((2.0f32).to_bits(), (0.6f32).to_bits());
    p.deactivate();
    assert!(!p.is_active());
    assert_eq!(p.scan_multiplier(), NORMAL_SCAN_MULTIPLIER);
    assert_eq!(p.min_confidence(), NORMAL_MIN_CONFIDENCE);
    assert_eq!(p.sensitivity_factor(), NORMAL_SCAN_MULTIPLIER);
}

#[test]
fn sensitivity_factor_handles_pathological_zero_multiplier() {
    let mut p = WarModeProfile::inactive();
    p.activate((0.0f32).to_bits(), (0.6f32).to_bits());
    assert_eq!(p.sensitivity_factor(), NORMAL_SCAN_MULTIPLIER);

    let mut p = WarModeProfile::inactive();
    p.activate((-1.0f32).to_bits(), (0.6f32).to_bits());
    assert_eq!(p.sensitivity_factor(), NORMAL_SCAN_MULTIPLIER);
}

#[test]
fn activate_with_new_values_overwrites_old_profile() {
    let mut p = WarModeProfile::inactive();
    p.activate((2.0f32).to_bits(), (0.6f32).to_bits());
    p.activate((3.0f32).to_bits(), (0.7f32).to_bits());
    assert!(p.is_active());
    assert_eq!(p.scan_multiplier(), (3.0f32).to_bits());
    assert_eq!(p.min_confidence(), (0.7f32).to_bits());
}

#[test]
fn empty_book_returns_zero() {
    let book = book(&[], &[]);
    assert_eq!(value(bid_ask_imbalance(&book)), 0.0);
    assert_eq!(value(liquidity_pressure(&book)), 0.0);
}

#[test]
fn empty_snapshot_defaults() {
    let s = OrderflowSnapshot::empty(SymbolId::new(42));
    assert_eq!(s.symbol, SymbolId::new(42));
    assert_eq!(value(s.bid_ask_imbalance), 0.0);
    assert_eq!(value(s.liquidity_pressure), 0.0);
    assert_eq!(s.aggressive_buyer_volume, 0);
    assert_eq!(s.aggressive_seller_volume, 0);
    assert_eq!(s.rolling_delta, 0);
    assert!(s.events.is_empty());
}

#[test]
fn normal_profile_is_the_neutral_float() {
    assert_eq!(f32::from_bits(NORMAL_SCAN_MULTIPLIER), 1.0);
    assert_eq!(f32::from_bits(NORMAL_MIN_CONFIDENCE), 0.0);
    assert_eq!(f32::from_bits(INFINITY_BITS), f32::INFINITY);
    let mut p = WarModeProfile::inactive();
    p.activate(f32::NAN.to_bits(), 0);
    assert_eq!(p.sensitivity_factor(), NORMAL_SCAN_MULTIPLIER);
    p.activate((-0.0f32).to_bits(), 0);
    assert_eq!(p.sensitivity_factor(), NORMAL_SCAN_MULTIPLIER);
    p.activate(f32::MIN_POSITIVE.to_bits(), 0);
    assert_eq!(p.sensitivity_factor(), f32::MIN_POSITIVE.to_bits());
}

#[test]
fn imbalances_are_exact_fractions() {
    let b = book(&[lvl(100, 7), lvl(99, 1)], &[lvl(101, 13)]);
    assert_eq!(bid_ask_imbalance(&b), Ratio { num: -6, den: 20 });
    assert_eq!(liquidity_pressure(&b), Ratio { num: -5, den: 21 });
    let full = book(&[lvl(100, u64::MAX)], &[lvl(101, u64::MAX)]);
    assert_eq!(value(bid_ask_imbalance(&full)), 0.0);
}

#[test]
fn one_sided_books_are_extreme_at_every_size() {
    for qty in [1u64, 17, 9_999, u64::MAX] {
        assert_eq!(value(bid_ask_imbalance(&book(&[lvl(100, qty)], &[]))), 1.0);
        assert_eq!(value(bid_ask_imbalance(&book(&[], &[lvl(101, qty)]))), -1.0);
    }
}

#[test]
fn volumes_stop_at_the_largest_count() {
    let mut rd = RollingDelta::with_window(1_000_000_000);
    rd.record(0, u64::MAX, 1);
    rd.record(0, u64::MAX, 0);
    assert_eq!(rd.buyer_volume(0), u64::MAX);
    assert_eq!(rd.seller_volume(0), 1);
    assert_eq!(rd.signed_delta(0), i64::MAX);
}

#[test]
fn gap_on_the_ask_side_is_reported_as_a_sell() {
    let levels = [lvl(10100, 8), lvl(10104, 5)];
    assert_eq!(
        detect_liquidity_gap(Side::Sell, &levels, 1),
        Some(OrderflowEvent::LiquidityGap {
            side: Side::Sell,
            level: Px::from_paise(10100),
            size: 8,
        })
    );
    assert_eq!(detect_liquidity_gap(Side::Sell, &levels, 2), None);
    assert_eq!(detect_liquidity_gap(Side::Sell, &levels[..1], 1), None);
    let far = [lvl(i64::MIN, 1), lvl(i64::MAX, 1)];
    assert!(detect_liquidity_gap(Side::Buy, &far, i64::MAX).is_some());
}

#[test]
fn a_tick_size_below_one_counts_as_one() {
    assert_eq!(Detector::with_tick_size(0).tick_size_paise(), 1);
    assert_eq!(Detector::with_tick_size(-5).tick_size_paise(), 1);
    assert_eq!(Detector::with_tick_size(5).tick_size_paise(), 5);
}

#[test]
fn a_spoof_with_a_partial_fill_scores_the_untraded_share() {
    let mut det = Detector::new();
    let mut live = LiveBook::new();
    for i in 0..30u64 {
        live.apply(&book_with(i + 1, &[lvl(9900, 10)], &[lvl(10000, 10)]));
        let mut out: BoundedEvents<OrderflowEvent, 4> = BoundedEvents::new();
        det.observe_book(&live, (i + 1) * 1_000_000, &mut out);
    }
    live.apply(&book_with(31, &[lvl(9950, 1000)], &[lvl(10000, 10)]));
    let mut out: BoundedEvents<OrderflowEvent, 4> = BoundedEvents::new();
    det.observe_book(&live, 1_000_000_000, &mut out);
    let mut trades: BoundedEvents<OrderflowEvent, 4> = BoundedEvents::new();
    det.observe_trade(&make_tick(1, 9950, 100), &live, &mut trades);
    live.apply(&book_with(32, &[lvl(9900, 10)], &[lvl(10000, 10)]));
    let mut out: BoundedEvents<OrderflowEvent, 4> = BoundedEvents::new();
    det.observe_book(&live, 1_100_000_000, &mut out);
    assert_eq!(
        out.as_slice(),
        [OrderflowEvent::Spoofing {
            side: Side::Buy,
            level: Px::from_paise(9950),
            evidence_score: Ratio { num: 900, den: 1000 },
        }]
    );
}

#[test]
fn a_trade_without_an_opposite_quote_has_no_aggressor() {
    let mut eng = OrderflowEngine::new();
    let snap = eng.ingest_tick(&make_tick(3, 100, 10), 5);
    assert_eq!(snap.aggressive_buyer_volume, 0);
    assert_eq!(snap.aggressive_seller_volume, 0);
    assert!(snap.events.is_empty());
    assert_eq!(eng.tracked_symbol_count(), 1);
}

#[test]
fn published_snapshot_is_the_one_read() {
    let mut h = OrderflowHeatmap::new(SymbolId::new(9));
    assert!(h.get_snapshot().is_empty());
    let b = book(&[lvl(100, 5)], &[]);
    h.publish(HeatmapSnapshot::from_book(SymbolId::new(9), &b, 12));
    assert_eq!(h.symbol(), SymbolId::new(9));
    assert_eq!(h.get_snapshot().ts_ns, 12);
    assert_eq!(h.get_snapshot().rows[0].bid_price_paise, 100);
    assert!(!h.get_snapshot().is_empty());
}

#[test]
fn engine_shows_the_heatmap_of_tracked_symbols_only() {
    let mut eng = OrderflowEngine::new();
    assert!(eng.current_heatmap(SymbolId::new(4)).is_none());
    assert!(eng.subscribe_heatmap(SymbolId::new(4)).is_none());
    eng.ingest_book(&make_book(4, 1, &[lvl(100, 5)], &[lvl(101, 4)]), 77);
    let shown = eng.current_heatmap(SymbolId::new(4)).unwrap();
    assert_eq!(shown.ts_ns, 77);
    assert_eq!(shown.rows[0].ask_price_paise, 101);
}

#[test]
fn quote_messages_become_one_level_books() {
    let bytes = br#"{"data":{"symbol":"SBIN","bid_paise":100,"bid_qty":5,"ask_paise":101,"ask_qty":6,"ts_ns":9}}"#;
    let quote = read_quote(bytes).unwrap();
    let quote = quote.unwrap();
    assert_eq!(quote.symbol, "SBIN");
    let book = book_from_quote(&quote, 8, 1_000).unwrap();
    assert_eq!(book.symbol, 8);
    assert_eq!(book.ts_ns, 9);
    assert_eq!(book.bid_levels, vec![lvl(100, 5)]);
    assert_eq!(book.ask_levels, vec![lvl(101, 6)]);
    assert!(book_from_quote(&quote, 0, 1_000).is_none());
    assert!(read_quote(b"not json").is_err());
    assert!(read_quote(b"{}").unwrap().is_none());
}

#[test]
fn quotes_without_a_size_leave_that_side_empty() {
    let quote = QuoteMessage {
        symbol: "SBIN".to_string(),
        bid_paise: 100,
        bid_qty: 0,
        ask_paise: 101,
        ask_qty: 6,
        ts_ns: None,
    };
    let book = book_from_quote(&quote, 8, 1_000).unwrap();
    assert!(book.bid_levels.is_empty());
    assert_eq!(book.ask_levels.len(), 1);
    assert_eq!(book.ask_levels[0].price_paise, 101);
    assert_eq!(book.ask_levels[0].qty, 6);
    assert_eq!(book.ts_ns, 1_000);
}

#[test]
fn tick_bytes_of_the_wrong_length_are_left_alone() {
    let mut eng = OrderflowEngine::new();
    let bytes = tick_to_raw_bytes(&make_tick(5, 100, 10));
    assert!(ingest_tick_bytes(&mut eng, &bytes[..bytes.len() - 1]).is_none());
    assert_eq!(eng.tracked_symbol_count(), 0);
    assert!(ingest_tick_bytes(&mut eng, &bytes).is_some());
    assert_eq!(eng.tracked_symbol_count(), 1);
}

#[test]
fn watchers_of_a_heatmap_share_its_channel() {
    let mut h = OrderflowHeatmap::new(SymbolId::new(9));
    let a = h.subscribe();
    h.publish_from_book(&book(&[lvl(100, 5)], &[]), 12);
    let b = h.subscribe();
    assert!(a.same_channel(&b));
    let mut other = OrderflowHeatmap::new(SymbolId::new(9));
    assert!(!a.same_channel(&other.subscribe()));
}

#[test]
fn engine_watchers_stay_on_the_channel_of_their_symbol() {
    let mut eng = OrderflowEngine::new();
    eng.ensure_symbol(SymbolId::new(7));
    eng.ensure_symbol(SymbolId::new(8));
    let a = eng.subscribe_heatmap(SymbolId::new(7)).unwrap();
    eng.ingest_book(&make_book(7, 1, &[lvl(100, 5)], &[lvl(101, 4)]), 99);
    eng.ingest_tick(&make_tick(7, 101, 1), 100);
    let b = eng.subscribe_heatmap(SymbolId::new(7)).unwrap();
    assert!(a.same_channel(&b));
    assert_eq!(a.borrow().ts_ns, 99);
    let c = eng.subscribe_heatmap(SymbolId::new(8)).unwrap();
    assert!(!a.same_channel(&c));
    assert_eq!(eng.tracked_symbol_count(), 2);
}

#[test]
fn a_sale_into_the_last_bid_is_aggressive_without_an_ask() {
    let mut det = Detector::new();
    let live = book(&[lvl(100, 5)], &[]);
    let mut out: BoundedEvents<OrderflowEvent, 4> = BoundedEvents::new();
    assert_eq!(det.observe_trade(&make_tick(1, 100, 20), &live, &mut out), 2);
    assert_eq!(
        out.as_slice()[0],
        OrderflowEvent::Absorption {
            side: Side::Buy,
            level: Px::from_paise(100),
            size: 20,
        }
    );
    let mut out: BoundedEvents<OrderflowEvent, 4> = BoundedEvents::new();
    assert_eq!(det.observe_trade(&make_tick(1, 101, 20), &live, &mut out), 0);
}

#[test]
fn the_window_counts_all_but_at_most_one_bucket() {
    // Buckets of ten nanoseconds.
    let mut rd = RollingDelta::with_window(3_000);
    for step in 0..1_000u64 {
        rd.record(step * 7, 1, 2);
    }
    let now: u64 = 6_993;
    let since = |from: u64| (0..1_000u64).filter(|step| step * 7 >= from).count() as u64;
    assert_eq!(rd.buyer_volume(now), since(4_000));
    assert!(since(now - 3_000 + 10) <= rd.buyer_volume(now));
    assert!(rd.buyer_volume(now) <= since(now - 3_000));
    assert_eq!(rd.seller_volume(now), 2 * since(4_000));
}

#[test]
fn ticks_leave_the_heightened_mode_as_it_is() {
    let mut eng = OrderflowEngine::new();
    eng.war_mode().activate(2.0f32.to_bits(), 0.6f32.to_bits());
    let bytes = tick_to_raw_bytes(&make_tick(5, 100, 10));
    assert!(ingest_tick_bytes(&mut eng, &bytes).is_some());
    assert!(ingest_tick_bytes(&mut eng, &bytes[1..]).is_none());
    assert!(eng.war_mode().is_active());
    assert_eq!(eng.war_mode().scan_multiplier(), 2.0f32.to_bits());
}
