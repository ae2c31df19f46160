//! Fills, marks and the position engine.
use hedge::base::types::{Px, Side, SymbolId};
use hedge::position::allocations::StrategyAllocation;
use hedge::position::engine::{
    project_unrealized, PositionEngine, PositionEvent, PositionSnapshot,
};
use hedge::position::feed::{
    handle_fill, handle_tick, portfolio_pnl_paise, read_fill, update_subject,
};
use hedge::position::pnl::{apply_fill_inner, unrealized_pnl_paise};
use hedge::position::position::Position;

fn px(paise: i64) -> Px {
    Px::from_paise(paise)
}

#[test]
fn opens_long_from_flat() {
    let r = apply_fill_inner(0, px(0), Side::Buy, 100, px(150_00));
    assert_eq!(r.new_quantity, 100);
    assert_eq!(r.new_avg_entry_px, px(150_00));
    assert_eq!(r.delta_realized_paise, 0);
}

#[test]
fn opens_short_from_flat() {
    let r = apply_fill_inner(0, px(0), Side::Sell, 80, px(99_50));
    assert_eq!(r.new_quantity, -80);
    assert_eq!(r.new_avg_entry_px, px(99_50));
    assert_eq!(r.delta_realized_paise, 0);
}

#[test]
fn scales_long_uses_vwap() {
    let r = apply_fill_inner(100, px(100_00), Side::Buy, 100, px(200_00));
    assert_eq!(r.new_quantity, 200);
    assert_eq!(r.new_avg_entry_px, px(150_00));
    assert_eq!(r.delta_realized_paise, 0);
}

#[test]
fn scales_short_uses_vwap() {
    let r = apply_fill_inner(-100, px(100_00), Side::Sell, 100, px(80_00));
    assert_eq!(r.new_quantity, -200);
    assert_eq!(r.new_avg_entry_px, px(90_00));
    assert_eq!(r.delta_realized_paise, 0);
}

#[test]
fn partial_close_long_realizes_pnl() {
    let r = apply_fill_inner(100, px(100_00), Side::Sell, 40, px(110_00));
    assert_eq!(r.new_quantity, 60);
    assert_eq!(r.new_avg_entry_px, px(100_00));
    assert_eq!(r.delta_realized_paise, 10_00 * 40);
}

#[test]
fn full_close_long_resets_avg_to_zero() {
    let r = apply_fill_inner(100, px(100_00), Side::Sell, 100, px(105_00));
    assert_eq!(r.new_quantity, 0);
    assert_eq!(r.new_avg_entry_px, px(0));
    assert_eq!(r.delta_realized_paise, 5_00 * 100);
}

#[test]
fn partial_close_short_realizes_pnl() {
    let r = apply_fill_inner(-100, px(100_00), Side::Buy, 30, px(95_00));
    assert_eq!(r.new_quantity, -70);
    assert_eq!(r.new_avg_entry_px, px(100_00));
    assert_eq!(r.delta_realized_paise, 5_00 * 30);
}

#[test]
fn losing_partial_close_long_yields_negative_pnl() {
    let r = apply_fill_inner(100, px(100_00), Side::Sell, 50, px(90_00));
    assert_eq!(r.new_quantity, 50);
    assert_eq!(r.new_avg_entry_px, px(100_00));
    assert_eq!(r.delta_realized_paise, -10_00 * 50);
}

#[test]
fn long_to_short_flip_resets_avg_to_fill_price() {
    let r = apply_fill_inner(60, px(100_00), Side::Sell, 100, px(110_00));
    assert_eq!(r.new_quantity, -40);
    assert_eq!(r.new_avg_entry_px, px(110_00));
    assert_eq!(r.delta_realized_paise, 10_00 * 60);
}

#[test]
fn short_to_long_flip_resets_avg_to_fill_price() {
    let r = apply_fill_inner(-50, px(100_00), Side::Buy, 80, px(95_00));
    assert_eq!(r.new_quantity, 30);
    assert_eq!(r.new_avg_entry_px, px(95_00));
    assert_eq!(r.delta_realized_paise, 5_00 * 50);
}

#[test]
fn zero_qty_fill_is_noop() {
    let r = apply_fill_inner(100, px(100_00), Side::Buy, 0, px(200_00));
    assert_eq!(r.new_quantity, 100);
    assert_eq!(r.new_avg_entry_px, px(100_00));
    assert_eq!(r.delta_realized_paise, 0);
}

#[test]
fn unrealized_zero_when_flat() {
    assert_eq!(unrealized_pnl_paise(0, px(0), px(100_00)), 0);
}

#[test]
fn unrealized_long_in_profit() {
    assert_eq!(unrealized_pnl_paise(100, px(100_00), px(105_00)), 5_00 * 100);
}

#[test]
fn unrealized_long_in_loss() {
    assert_eq!(unrealized_pnl_paise(100, px(100_00), px(90_00)), -10_00 * 100);
}

#[test]
fn unrealized_short_in_profit() {
    assert_eq!(unrealized_pnl_paise(-100, px(100_00), px(95_00)), 5_00 * 100);
}

#[test]
fn unrealized_short_in_loss() {
    assert_eq!(unrealized_pnl_paise(-100, px(100_00), px(110_00)), -10_00 * 100);
}

fn fresh() -> Position {
    Position::flat(SymbolId::new(42))
}

#[test]
fn long_open_then_add_then_partial_close_then_full_close() {
    let mut p = fresh();

    let d = p.apply_fill(Side::Buy, 100, px(100_00));
    assert_eq!(d, 0);
    assert_eq!(p.quantity, 100);
    assert_eq!(p.avg_entry_px, px(100_00));
    assert_eq!(p.realized_pnl_paise, 0);

    let d = p.apply_fill(Side::Buy, 100, px(200_00));
    assert_eq!(d, 0);
    assert_eq!(p.quantity, 200);
    assert_eq!(p.avg_entry_px, px(150_00));
    assert_eq!(p.realized_pnl_paise, 0);

    let d = p.apply_fill(Side::Sell, 80, px(160_00));
    assert_eq!(d, 10_00 * 80);
    assert_eq!(p.quantity, 120);
    assert_eq!(p.avg_entry_px, px(150_00));
    assert_eq!(p.realized_pnl_paise, 10_00 * 80);

    let d = p.apply_fill(Side::Sell, 120, px(140_00));
    assert_eq!(d, -10_00 * 120);
    assert_eq!(p.quantity, 0);
    assert_eq!(p.avg_entry_px, px(0));
    assert_eq!(p.realized_pnl_paise, 10_00 * 80 + (-10_00 * 120));
    assert!(p.is_flat());
}

#[test]
fn long_reversal_to_short_flips_sign_and_resets_avg() {
    let mut p = fresh();
    p.apply_fill(Side::Buy, 60, px(100_00));
    let d = p.apply_fill(Side::Sell, 100, px(110_00));
    assert_eq!(d, 10_00 * 60);
    assert_eq!(p.quantity, -40);
    assert_eq!(p.avg_entry_px, px(110_00));
    assert_eq!(p.realized_pnl_paise, 10_00 * 60);
}

#[test]
fn short_open_then_add_then_partial_close_then_full_close() {
    let mut p = fresh();

    p.apply_fill(Side::Sell, 100, px(100_00));
    assert_eq!(p.quantity, -100);
    assert_eq!(p.avg_entry_px, px(100_00));

    p.apply_fill(Side::Sell, 100, px(80_00));
    assert_eq!(p.quantity, -200);
    assert_eq!(p.avg_entry_px, px(90_00));

    let d = p.apply_fill(Side::Buy, 80, px(70_00));
    assert_eq!(d, 20_00 * 80);
    assert_eq!(p.quantity, -120);
    assert_eq!(p.avg_entry_px, px(90_00));

    let d = p.apply_fill(Side::Buy, 120, px(100_00));
    assert_eq!(d, -10_00 * 120);
    assert_eq!(p.quantity, 0);
    assert_eq!(p.avg_entry_px, px(0));
    assert_eq!(p.realized_pnl_paise, 20_00 * 80 + (-10_00 * 120));
}

#[test]
fn short_reversal_to_long_flips_sign_and_resets_avg() {
    let mut p = fresh();
    p.apply_fill(Side::Sell, 50, px(100_00));
    let d = p.apply_fill(Side::Buy, 80, px(95_00));
    assert_eq!(d, 5_00 * 50);
    assert_eq!(p.quantity, 30);
    assert_eq!(p.avg_entry_px, px(95_00));
    assert_eq!(p.realized_pnl_paise, 5_00 * 50);
}

#[test]
fn apply_mark_only_changes_unrealized_pnl() {
    let mut p = fresh();
    p.apply_fill(Side::Buy, 100, px(100_00));
    let realized_before = p.realized_pnl_paise;

    let unreal = p.apply_mark(px(105_00));
    assert_eq!(unreal, 5_00 * 100);
    assert_eq!(p.unrealized_pnl_paise, 5_00 * 100);
    assert_eq!(p.realized_pnl_paise, realized_before);
    assert_eq!(p.last_mark_px, px(105_00));

    let unreal = p.apply_mark(px(95_00));
    assert_eq!(unreal, -5_00 * 100);
    assert_eq!(p.realized_pnl_paise, realized_before);
}

#[test]
fn flat_position_has_zero_unrealized_at_any_mark() {
    let mut p = fresh();
    assert_eq!(p.apply_mark(px(100_00)), 0);
    assert_eq!(p.apply_mark(px(50_00)), 0);
}

#[test]
fn fill_recomputes_unrealized_at_last_mark() {
    let mut p = fresh();
    p.apply_mark(px(105_00));
    p.apply_fill(Side::Buy, 100, px(100_00));
    assert_eq!(p.unrealized_pnl_paise, 5_00 * 100);
}

#[test]
fn exposure_and_total_pnl_helpers() {
    let mut p = fresh();
    p.apply_fill(Side::Buy, 100, px(150_00));
    assert_eq!(p.exposure_paise(), 100 * 150_00);
    p.apply_mark(px(160_00));
    assert_eq!(p.total_pnl_paise(), p.realized_pnl_paise + p.unrealized_pnl_paise);
}

#[test]
fn strategy_allocations_round_trip() {
    let mut p = fresh();
    let mut allocs = Vec::new();
    allocs.push(StrategyAllocation {
        strategy_id: 1,
        quantity: 60,
        allocated_capital_inr: 6_000,
    });
    allocs.push(StrategyAllocation {
        strategy_id: 3,
        quantity: 40,
        allocated_capital_inr: 4_000,
    });
    p.set_strategy_allocations(&allocs);
    assert_eq!(p.strategy_allocations().len(), 2);
    assert_eq!(p.strategy_allocations()[0].strategy_id, 1);
    assert_eq!(p.strategy_allocations()[1].quantity, 40);
}

fn sym(id: u32) -> SymbolId {
    SymbolId::new(id)
}

const BASE_CAPITAL: i64 = 20_000 * 100;

#[test]
fn on_fill_emits_position_update_and_risk_state() {
    let mut engine = PositionEngine::new(BASE_CAPITAL);
    let events = engine.on_fill(sym(1), Side::Buy, 10, px(100_00), 0);
    assert_eq!(events.len(), 2);
    match &events[0] {
        PositionEvent::PositionUpdate { symbol, snapshot } => {
            assert_eq!(*symbol, sym(1));
            assert_eq!(snapshot.quantity, 10);
            assert_eq!(snapshot.avg_entry_px, px(100_00));
            assert_eq!(snapshot.realized_pnl_paise, 0);
        }
        other => panic!("unexpected first event: {:?}", other),
    }
    match &events[1] {
        PositionEvent::RiskState(s) => {
            assert_eq!(s.aggregate_exposure_paise, 10 * 100_00);
        }
        other => panic!("unexpected second event: {:?}", other),
    }
}

#[test]
fn on_tick_throttles_position_update_emissions() {
    let mut engine = PositionEngine::with_throttle(BASE_CAPITAL, 100_000_000);
    engine.on_fill(sym(1), Side::Buy, 10, px(100_00), 0);

    let evts = engine.on_tick(sym(1), px(101_00), 10_000_000);
    assert!(
        !evts
            .iter()
            .any(|e| matches!(e, PositionEvent::PositionUpdate { .. })),
        "expected no PositionUpdate within throttle window"
    );

    let evts = engine.on_tick(sym(1), px(102_00), 200_000_000);
    assert!(
        evts.iter()
            .any(|e| matches!(e, PositionEvent::PositionUpdate { .. })),
        "expected PositionUpdate after throttle elapsed"
    );
}

#[test]
fn on_tick_unheld_symbol_emits_nothing() {
    let mut engine = PositionEngine::new(BASE_CAPITAL);
    let evts = engine.on_tick(sym(99), px(100_00), 0);
    assert!(evts.is_empty());
}

#[test]
fn on_tick_flat_symbol_emits_nothing() {
    let mut engine = PositionEngine::new(BASE_CAPITAL);
    engine.on_fill(sym(1), Side::Buy, 10, px(100_00), 0);
    engine.on_fill(sym(1), Side::Sell, 10, px(100_00), 1);
    let evts = engine.on_tick(sym(1), px(105_00), 1_000_000_000);
    assert!(evts.is_empty(), "expected no events for flat symbol, got {:?}", evts);
}

#[test]
fn on_tick_does_not_emit_duplicate_risk_state() {
    let mut engine = PositionEngine::with_throttle(BASE_CAPITAL, 0);
    engine.on_fill(sym(1), Side::Buy, 10, px(100_00), 0);

    let first = engine.on_tick(sym(1), px(110_00), 1_000_000_000);
    assert!(first.iter().any(|e| matches!(e, PositionEvent::RiskState(_))));

    let second = engine.on_tick(sym(1), px(110_00), 2_000_000_000);
    assert!(
        !second
            .iter()
            .any(|e| matches!(e, PositionEvent::RiskState(_))),
        "duplicate RiskState emitted on identical tick: {:?}",
        second
    );
}

#[test]
fn aggregate_state_sums_across_symbols() {
    let mut engine = PositionEngine::new(BASE_CAPITAL);
    engine.on_fill(sym(1), Side::Buy, 10, px(100_00), 0);
    engine.on_fill(sym(2), Side::Sell, 5, px(200_00), 1);
    let s = engine.snapshot_risk_state();
    assert_eq!(s.aggregate_exposure_paise, 10 * 100_00 + 5 * 200_00);
}

#[test]
fn position_of_returns_clone_or_none() {
    let mut engine = PositionEngine::new(BASE_CAPITAL);
    assert!(engine.position_of(sym(1)).is_none());

    engine.on_fill(sym(1), Side::Buy, 7, px(50_00), 0);
    let p = engine.position_of(sym(1)).unwrap();
    assert_eq!(p.quantity, 7);
    assert_eq!(p.avg_entry_px, px(50_00));
}

#[test]
fn strategy_allocations_accessor() {
    let mut engine = PositionEngine::new(BASE_CAPITAL);
    engine.on_fill(sym(1), Side::Buy, 10, px(100_00), 0);

    let mut allocs = Vec::new();
    allocs.push(StrategyAllocation {
        strategy_id: 2,
        quantity: 10,
        allocated_capital_inr: 1_000,
    });
    engine.set_strategy_allocations(sym(1), &allocs);

    let out = engine.strategy_allocations();
    assert_eq!(out.len(), 1);
    assert_eq!(out[0].0, sym(1));
    assert_eq!(out[0].1.strategy_id, 2);
}

#[test]
fn first_tick_after_fill_is_throttled() {
    let mut engine = PositionEngine::with_throttle(BASE_CAPITAL, 100_000_000);
    engine.on_fill(sym(1), Side::Buy, 10, px(100_00), 0);
    let evts = engine.on_tick(sym(1), px(101_00), 50_000_000);
    assert!(!evts
        .iter()
        .any(|e| matches!(e, PositionEvent::PositionUpdate { .. })));
}

struct Ledger {
    qty: i64,
    avg: i64,
    realized: i128,
    cash: i128,
}

impl Ledger {
    fn fill(&mut self, side: Side, qty: u64, px: i64) {
        let signed: i64 = match side {
            Side::Buy => qty as i64,
            Side::Sell => -(qty as i64),
        };
        self.cash -= signed as i128 * px as i128;
        if self.qty == 0 || (self.qty > 0) == (signed > 0) {
            let total = self.qty.abs() as i128 + qty as i128;
            let value = self.qty.abs() as i128 * self.avg as i128 + qty as i128 * px as i128;
            self.avg = (value / total) as i64;
            self.qty += signed;
            return;
        }
        let closed = self.qty.abs().min(qty as i64) as i128;
        let per_unit = (px - self.avg) as i128 * if self.qty > 0 { 1 } else { -1 };
        self.realized += per_unit * closed;
        let before = self.qty;
        self.qty += signed;
        if self.qty == 0 {
            self.avg = 0;
        } else if (self.qty > 0) != (before > 0) {
            self.avg = px;
        }
    }
}

#[test]
fn a_long_tape_agrees_with_an_independent_ledger() {
    let mut p = Position::flat(SymbolId::new(1));
    let mut l = Ledger { qty: 0, avg: 0, realized: 0, cash: 0 };
    let mut seed: u64 = 0x1234_5678;
    let mut mark: i64 = 0;
    for _ in 0..2_000 {
        seed = seed.wrapping_mul(6364136223846793005).wrapping_add(1442695040888963407);
        let pick = seed >> 33;
        let paise = 1_000 + (pick % 90_000) as i64;
        match pick % 3 {
            0 => {
                p.apply_mark(px(paise));
                mark = paise;
            }
            1 => {
                p.apply_fill(Side::Buy, 1 + pick % 50, px(paise));
                l.fill(Side::Buy, 1 + pick % 50, paise);
            }
            _ => {
                p.apply_fill(Side::Sell, 1 + pick % 50, px(paise));
                l.fill(Side::Sell, 1 + pick % 50, paise);
            }
        }
        assert_eq!(p.quantity, l.qty);
        assert_eq!(p.realized_pnl_paise as i128, l.realized);
        if p.quantity != 0 {
            assert_eq!(p.avg_entry_px, px(l.avg));
        } else {
            assert_eq!(p.unrealized_pnl_paise, 0);
        }
        if mark != 0 {
            let open = (mark - l.avg) as i128 * l.qty as i128;
            assert_eq!(p.unrealized_pnl_paise as i128, open);
        }
        assert_eq!(p.total_pnl_paise(), p.realized_pnl_paise + p.unrealized_pnl_paise);
    }
}

#[test]
fn a_closed_book_realizes_its_cash_flow() {
    let mut p = Position::flat(SymbolId::new(1));
    p.apply_fill(Side::Buy, 30, px(100_00));
    p.apply_fill(Side::Sell, 10, px(104_00));
    p.apply_fill(Side::Sell, 20, px(97_00));
    assert!(p.is_flat());
    assert_eq!(p.realized_pnl_paise, 10 * 104_00 + 20 * 97_00 - 30 * 100_00);
}

#[test]
fn partial_fills_at_one_price_equal_a_single_fill() {
    let mut whole = Position::flat(SymbolId::new(1));
    whole.apply_fill(Side::Buy, 60, px(123_45));
    let mut parts = Position::flat(SymbolId::new(1));
    for q in [10u64, 20, 5, 25] {
        parts.apply_fill(Side::Buy, q, px(123_45));
    }
    assert_eq!(parts.quantity, whole.quantity);
    assert_eq!(parts.avg_entry_px, whole.avg_entry_px);
    assert_eq!(parts.realized_pnl_paise, 0);
}

#[test]
fn fills_before_any_mark_show_no_unrealized_profit() {
    let mut p = Position::flat(SymbolId::new(1));
    p.apply_fill(Side::Buy, 100, px(100_00));
    assert_eq!(p.last_mark_px, px(0));
    assert_eq!(p.unrealized_pnl_paise, 0);
}

#[test]
fn exposure_is_held_at_the_largest_number() {
    let mut p = Position::flat(SymbolId::new(1));
    assert!(p.fill_fits(Side::Sell, i64::MAX as u64, px(i64::MAX)));
    p.apply_fill(Side::Sell, i64::MAX as u64, px(i64::MAX));
    assert_eq!(p.exposure_paise(), i64::MAX);
}

#[test]
fn snapshots_copy_the_position() {
    let mut p = Position::flat(SymbolId::new(3));
    p.apply_fill(Side::Sell, 4, px(10_00));
    p.set_strategy_allocations(&[StrategyAllocation {
        strategy_id: 9,
        quantity: -4,
        allocated_capital_inr: 40,
    }]);
    let s = PositionSnapshot::from_position(&p);
    assert_eq!(s.symbol, SymbolId::new(3));
    assert_eq!(s.quantity, -4);
    assert_eq!(s.strategy_allocations.len(), 1);
    assert_eq!(s.strategy_allocations[0].strategy_id, 9);
    let d = p.duplicate();
    assert_eq!(d.quantity, -4);
    assert_eq!(d.strategy_allocations()[0].strategy_id, 9);
    assert_eq!(project_unrealized(-4, px(10_00), px(9_00)), 4_00);
}

#[test]
fn fill_messages_reach_the_engine() {
    let mut e = PositionEngine::new(BASE_CAPITAL);
    let fill = read_fill(
        br#"{"kind":"fill","data":{"symbol":"RELIANCE","side":"Sell","filled_qty":5,"avg_fill_paise":20000}}"#,
    )
    .unwrap();
    assert_eq!(fill.symbol, "RELIANCE");
    assert_eq!(fill.side, Side::Sell);
    assert!(e.fill_fits(sym(7), fill.side, fill.qty, fill.px));
    assert_eq!(handle_fill(&mut e, 7, &fill, 1).len(), 2);
    assert_eq!(e.position_of(sym(7)).unwrap().quantity, -5);
    assert!(handle_fill(&mut e, 0, &fill, 2).is_empty(), "unknown symbols are dropped");
    let flat = read_fill(br#"{"symbol":"X","avg_fill_paise":1}"#).unwrap();
    assert_eq!((flat.qty, flat.side), (0, Side::Buy));
    assert!(handle_fill(&mut e, 7, &flat, 3).is_empty());
    assert!(read_fill(b"{").is_err());
    assert_eq!(e.tracked_symbols(), 1);
    assert_eq!(e.base_capital_paise(), BASE_CAPITAL);
    assert_eq!(update_subject("RELIANCE"), "pos.update.RELIANCE");
}

#[test]
fn binary_ticks_mark_the_position() {
    let mut e = PositionEngine::with_throttle(BASE_CAPITAL, 0);
    e.on_fill(sym(7), Side::Buy, 10, px(100_00), 0);
    let bytes =
        hedge::market_data::upstox::encode_tick_v1(7, 110_00, 110_00, 110_00, 5).unwrap();
    let events = handle_tick(&mut e, &bytes, 10);
    assert_eq!(events.len(), 2);
    let s = e.snapshot_risk_state();
    assert_eq!(s.peak_equity_paise, BASE_CAPITAL + 10_00 * 10);
    assert_eq!(portfolio_pnl_paise(&s, BASE_CAPITAL), 10_00 * 10);
    assert!(handle_tick(&mut e, &bytes[..28], 20).is_empty());
}

#[test]
fn peak_equity_never_falls() {
    let mut e = PositionEngine::with_throttle(BASE_CAPITAL, 0);
    e.on_fill(sym(1), Side::Buy, 10, px(100_00), 0);
    let mut peak = e.snapshot_risk_state().peak_equity_paise;
    for (t, p) in [120_00i64, 80_00, 130_00, 90_00].iter().enumerate() {
        e.on_tick(sym(1), px(*p), t as u64 + 1);
        let now = e.snapshot_risk_state();
        assert!(now.peak_equity_paise >= peak);
        peak = now.peak_equity_paise;
        assert_eq!(
            peak - now.drawdown_paise,
            BASE_CAPITAL + (p - 100_00) * 10,
            "equity is the peak less the drawdown"
        );
    }
}

#[test]
fn a_mark_at_zero_is_a_mark() {
    let mut p = Position::flat(SymbolId::new(1));
    p.apply_fill(Side::Buy, 10, px(100));
    assert_eq!((p.unrealized_pnl_paise, p.marked), (0, false));
    assert_eq!(p.apply_mark(px(0)), -1000);
    p.apply_fill(Side::Buy, 1, px(100));
    assert_eq!((p.unrealized_pnl_paise, p.marked), (-1100, true));
}

#[test]
fn a_closed_position_has_realized_its_cash() {
    let mut p = Position::flat(SymbolId::new(1));
    p.apply_fill(Side::Buy, 1, px(100));
    p.apply_fill(Side::Buy, 1, px(101));
    p.apply_fill(Side::Buy, 1, px(103));
    p.apply_fill(Side::Sell, 2, px(110));
    p.apply_fill(Side::Sell, 1, px(90));
    assert_eq!((p.quantity, p.unrealized_pnl_paise), (0, 0));
    // The second purchase makes an average of 100.5, held as 100: a paisa over both.
    let rounding = p.realized_pnl_paise - (310 - 304);
    assert_eq!(rounding, 1);
    let mut p = Position::flat(SymbolId::new(1));
    p.apply_fill(Side::Buy, 3, px(100));
    p.apply_fill(Side::Buy, 4, px(100));
    p.apply_fill(Side::Sell, 7, px(101));
    assert_eq!((p.quantity, p.realized_pnl_paise), (0, 7));
}

#[test]
fn exposure_is_held_at_both_ends() {
    let mut p = Position::flat(SymbolId::new(1));
    p.apply_fill(Side::Buy, 2, px(i64::MIN));
    assert_eq!(p.exposure_paise(), i64::MIN);
    let mut p = Position::flat(SymbolId::new(1));
    p.apply_fill(Side::Sell, 2, px(i64::MAX));
    assert_eq!(p.exposure_paise(), i64::MAX);
}
