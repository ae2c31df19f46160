//! Sector and volatility breadth.
use hedge::base::schema::Tick;
use hedge::market_data::breadth::{
    BreadthAggregator, PriceMove, SectorBreadth, DEFAULT_BATCH_INTERVAL, DEFAULT_BATCH_TICKS,
    VOLATILITY_WINDOW,
};
use std::collections::HashMap;

const HOUR_NS: u64 = 3_600_000_000_000;

fn make_tick(symbol: u32, ltp_paise: i64) -> Tick {
    Tick {
        correlation_id: [0u8; 16],
        symbol,
        exchange: 0,
        ltp_paise,
        bid_paise: ltp_paise - 50,
        ask_paise: ltp_paise + 50,
        ltq: 1,
        total_buy_qty: 0,
        total_sell_qty: 0,
        ts_exchange_ns: 0,
        ts_recv_ns: 0,
    }
}

fn fixture() -> BreadthAggregator {
    let mut sectors = HashMap::new();
    sectors.insert(1, "Banking".to_string());
    sectors.insert(2, "Banking".to_string());
    sectors.insert(3, "IT".to_string());
    let mut prev_close = HashMap::new();
    prev_close.insert(1, 1_000_00);
    prev_close.insert(2, 2_000_00);
    prev_close.insert(3, 3_000_00);
    BreadthAggregator::with_batch_thresholds(sectors, prev_close, 10_000, HOUR_NS, 0)
}

fn breadth_of(s: &SectorBreadth, sector: &str) -> Option<f32> {
    s.sectors
        .iter()
        .find(|c| c.sector == sector)
        .map(|c| (c.advancers as f32 - c.decliners as f32) / c.total as f32)
}

fn stdev_of(moves: &[PriceMove]) -> f32 {
    let returns: Vec<f64> = moves
        .iter()
        .map(|m| {
            ((m.to_paise as f64 - m.from_paise as f64) / m.from_paise as f64) as f32 as f64
        })
        .collect();
    if returns.len() < 2 {
        return 0.0;
    }
    let n = returns.len() as f64;
    let mean = returns.iter().sum::<f64>() / n;
    let sq = returns.iter().map(|x| x * x).sum::<f64>() / n;
    (sq - mean * mean).max(0.0).sqrt() as f32
}

#[test]
fn sector_breadth_one_advancer_one_decliner_yields_zero() {
    let mut agg = fixture();
    agg.on_tick(&make_tick(1, 1_010_00), 1);
    agg.on_tick(&make_tick(2, 1_990_00), 2);
    agg.on_tick(&make_tick(3, 3_010_00), 3);
    let snap = agg.snapshot(4);
    let sector = snap.sector.expect("sector");
    let banking = breadth_of(&sector, "Banking").unwrap();
    let it = breadth_of(&sector, "IT").unwrap();
    assert!((banking - 0.0).abs() < f32::EPSILON, "Banking: {}", banking);
    assert!((it - 1.0).abs() < f32::EPSILON, "IT: {}", it);
    assert_eq!(sector.ts_ns, 4);
}

#[test]
fn sector_breadth_unchanged_counts_in_total_only() {
    let mut agg = fixture();
    agg.on_tick(&make_tick(1, 1_010_00), 1);
    agg.on_tick(&make_tick(2, 2_000_00), 2);
    let banking = breadth_of(&agg.snapshot(3).sector.unwrap(), "Banking").unwrap();
    assert!((banking - 0.5).abs() < f32::EPSILON, "{}", banking);
}

#[test]
fn sector_breadth_excludes_symbols_with_zero_prev_close() {
    let mut sectors = HashMap::new();
    sectors.insert(99, "Energy".to_string());
    let mut agg =
        BreadthAggregator::with_batch_thresholds(sectors, HashMap::new(), 10_000, HOUR_NS, 0);
    agg.on_tick(&make_tick(99, 100_00), 1);
    let snap = agg.snapshot(2);
    assert!(
        breadth_of(&snap.sector.unwrap(), "Energy").is_none(),
        "sector with no prev_close must be excluded"
    );
    assert_eq!(agg.tracked_symbols(), 1);
}

#[test]
fn batch_publishes_after_n_ticks() {
    let mut sectors = HashMap::new();
    sectors.insert(1, "Banking".to_string());
    let mut prev_close = HashMap::new();
    prev_close.insert(1, 1_000_00);
    let mut agg = BreadthAggregator::with_batch_thresholds(sectors, prev_close, 3, HOUR_NS, 0);
    let s1 = agg.on_tick(&make_tick(1, 1_001_00), 1);
    assert!(s1.sector.is_none(), "no publish on tick 1");
    let s2 = agg.on_tick(&make_tick(1, 1_002_00), 2);
    assert!(s2.sector.is_none(), "no publish on tick 2");
    let s3 = agg.on_tick(&make_tick(1, 1_003_00), 3);
    assert!(s3.sector.is_some(), "publish on tick 3");
    assert!(s3.volatility.is_some());
    assert_eq!(agg.ticks_in_batch(), 0);
    let s4 = agg.on_tick(&make_tick(1, 1_004_00), 4);
    assert!(s4.sector.is_none(), "no publish immediately after batch");
}

#[test]
fn batch_publishes_after_interval_elapses() {
    let mut sectors = HashMap::new();
    sectors.insert(1, "Banking".to_string());
    let mut prev_close = HashMap::new();
    prev_close.insert(1, 1_000_00);
    let mut agg =
        BreadthAggregator::with_batch_thresholds(sectors, prev_close, 10_000, 1_000_000, 0);
    let early = agg.on_tick(&make_tick(1, 1_001_00), 999_999);
    assert!(early.sector.is_none(), "one nanosecond short");
    let snap = agg.on_tick(&make_tick(1, 1_001_00), 5_000_000);
    assert!(snap.sector.is_some(), "interval trigger should fire");
    let next = agg.on_tick(&make_tick(1, 1_001_00), 5_000_001);
    assert!(next.sector.is_none(), "the interval starts afresh");
}

#[test]
fn volatility_uses_pct_returns_across_symbols() {
    let mut agg = fixture();
    agg.on_tick(&make_tick(1, 100_00), 1);
    agg.on_tick(&make_tick(1, 200_00), 2);
    agg.on_tick(&make_tick(1, 400_00), 3);
    agg.on_tick(&make_tick(1, 800_00), 4);
    let vol = agg.snapshot(5).volatility.unwrap();
    let stdev = stdev_of(&vol.moves);
    assert!(stdev.abs() < 1e-3, "constant returns => stdev≈0, got {}", stdev);
    assert!(vol.sample_count >= 3);
    assert_eq!(vol.sample_count, 3);
    assert_eq!(vol.moves[2], PriceMove { from_paise: 400_00, to_paise: 800_00 });
}

#[test]
fn volatility_window_holds_the_latest_moves() {
    let mut agg = fixture();
    for i in 0..100i64 {
        agg.on_tick(&make_tick(1, 100_00 + i), i as u64);
    }
    agg.on_tick(&make_tick(2, 500), 101);
    agg.on_tick(&make_tick(2, 600), 102);
    let vol = agg.snapshot(103).volatility.unwrap();
    assert_eq!(vol.sample_count as usize, VOLATILITY_WINDOW + 1);
    assert_eq!(vol.moves[0], PriceMove { from_paise: 100_39, to_paise: 100_40 });
    assert_eq!(vol.moves[60], PriceMove { from_paise: 500, to_paise: 600 });
}

#[test]
fn moves_from_zero_are_left_out() {
    let mut agg = fixture();
    agg.on_tick(&make_tick(1, 0), 1);
    agg.on_tick(&make_tick(1, 10), 2);
    agg.on_tick(&make_tick(1, 0), 3);
    let vol = agg.snapshot(4).volatility.unwrap();
    assert_eq!(vol.moves, vec![PriceMove { from_paise: 10, to_paise: 0 }]);
}

#[test]
fn default_batches_are_a_hundred_ticks_or_a_quarter_second() {
    assert_eq!(DEFAULT_BATCH_TICKS, 100);
    assert_eq!(DEFAULT_BATCH_INTERVAL, 250_000_000);
    let mut agg = BreadthAggregator::new(HashMap::new(), HashMap::new(), 0);
    for i in 1..100u64 {
        assert!(agg.on_tick(&make_tick(1, 1), i).sector.is_none());
    }
    assert!(agg.on_tick(&make_tick(1, 1), 100).sector.is_some());
}
