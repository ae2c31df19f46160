//! Risk state of a portfolio.
use hedge::base::types::{Px, Side, SymbolId};
use hedge::position::position::Position;
use hedge::position::risk_state::{aggregate_state, TraderRiskState};

fn state_of(positions: &[&Position], base: i64, peak: i64) -> TraderRiskState {
    let owned: Vec<Position> = positions.iter().map(|p| p.duplicate()).collect();
    aggregate_state(&owned, base, peak)
}


fn px(paise: i64) -> Px {
    Px::from_paise(paise)
}

fn pos(symbol: u32) -> Position {
    Position::flat(SymbolId::new(symbol))
}

const BASE_CAPITAL: i64 = 20_000 * 100;

#[test]
fn fresh_state_starts_at_base_capital() {
    let s = TraderRiskState::fresh(BASE_CAPITAL);
    assert_eq!(s.aggregate_exposure_paise, 0);
    assert_eq!(s.drawdown_paise, 0);
    assert_eq!(s.available_margin_paise, BASE_CAPITAL);
    assert_eq!(s.peak_equity_paise, BASE_CAPITAL);
}

#[test]
fn aggregate_with_no_positions_yields_fresh() {
    let s = state_of(&[], BASE_CAPITAL, BASE_CAPITAL);
    assert_eq!(s, TraderRiskState::fresh(BASE_CAPITAL));
}

#[test]
fn open_long_uses_exposure_and_consumes_margin() {
    let mut p = pos(1);
    p.apply_fill(Side::Buy, 10, px(100_00));
    let s = state_of(&[&p], BASE_CAPITAL, BASE_CAPITAL);
    assert_eq!(s.aggregate_exposure_paise, 10 * 100_00);
    assert_eq!(s.available_margin_paise, BASE_CAPITAL - 10 * 100_00);
    assert_eq!(s.drawdown_paise, 0);
    assert_eq!(s.peak_equity_paise, BASE_CAPITAL);
}

#[test]
fn drawdown_grows_on_losing_unrealized() {
    let mut p = pos(1);
    p.apply_fill(Side::Buy, 10, px(100_00));
    p.apply_mark(px(90_00));
    assert_eq!(p.unrealized_pnl_paise, -10_00 * 10);

    let s = state_of(&[&p], BASE_CAPITAL, BASE_CAPITAL);
    assert_eq!(s.drawdown_paise, 10_00 * 10);
    assert_eq!(s.peak_equity_paise, BASE_CAPITAL);
}

#[test]
fn peak_equity_advances_on_winning_unrealized() {
    let mut p = pos(1);
    p.apply_fill(Side::Buy, 10, px(100_00));
    p.apply_mark(px(110_00));

    let s = state_of(&[&p], BASE_CAPITAL, BASE_CAPITAL);
    assert_eq!(s.peak_equity_paise, BASE_CAPITAL + 10_00 * 10);
    assert_eq!(s.drawdown_paise, 0);
}

#[test]
fn drawdown_grows_after_a_realized_loss() {
    let mut p = pos(1);
    p.apply_fill(Side::Buy, 10, px(100_00));
    p.apply_fill(Side::Sell, 10, px(90_00));
    assert_eq!(p.realized_pnl_paise, -10_00 * 10);

    let s = state_of(&[&p], BASE_CAPITAL, BASE_CAPITAL);
    assert_eq!(s.drawdown_paise, 10_00 * 10);
    assert_eq!(s.available_margin_paise, BASE_CAPITAL - 10_00 * 10);
}

#[test]
fn peak_equity_carries_over_across_calls() {
    let mut p = pos(1);
    p.apply_fill(Side::Buy, 10, px(100_00));
    p.apply_mark(px(120_00));
    let s1 = state_of(&[&p], BASE_CAPITAL, BASE_CAPITAL);
    assert_eq!(s1.peak_equity_paise, BASE_CAPITAL + 20_00 * 10);

    p.apply_mark(px(110_00));
    let s2 = state_of(&[&p], BASE_CAPITAL, s1.peak_equity_paise);
    assert_eq!(s2.peak_equity_paise, s1.peak_equity_paise);
    assert_eq!(s2.drawdown_paise, 10_00 * 10);
}

#[test]
fn available_margin_recovers_when_position_closes() {
    let mut p = pos(1);
    p.apply_fill(Side::Buy, 10, px(100_00));
    let s_open = state_of(&[&p], BASE_CAPITAL, BASE_CAPITAL);
    assert_eq!(s_open.available_margin_paise, BASE_CAPITAL - 10 * 100_00);

    p.apply_fill(Side::Sell, 10, px(100_00));
    let s_close = state_of(&[&p], BASE_CAPITAL, s_open.peak_equity_paise);
    assert_eq!(s_close.aggregate_exposure_paise, 0);
    assert_eq!(s_close.available_margin_paise, BASE_CAPITAL);
}

#[test]
fn aggregates_multiple_symbols() {
    let mut a = pos(1);
    let mut b = pos(2);
    a.apply_fill(Side::Buy, 10, px(100_00));
    b.apply_fill(Side::Sell, 5, px(200_00));

    let s = state_of(&[&a, &b], BASE_CAPITAL, BASE_CAPITAL);
    assert_eq!(s.aggregate_exposure_paise, 10 * 100_00 + 5 * 200_00);
}

#[test]
fn display_helpers_truncate_to_inr() {
    let s = TraderRiskState {
        aggregate_exposure_paise: 1_234_56,
        drawdown_paise: 50_99,
        available_margin_paise: 19_900_00,
        peak_equity_paise: 21_000_50,
    };
    assert_eq!(s.aggregate_exposure_inr(), 1234);
    assert_eq!(s.drawdown_inr(), 50);
    assert_eq!(s.available_margin_inr(), 19_900);
    assert_eq!(s.peak_equity_inr(), 21_000);
}

#[test]
fn the_order_of_positions_does_not_matter() {
    let mut a = pos(1);
    a.apply_fill(Side::Buy, 10, Px::from_paise(100));
    let mut b = pos(2);
    b.apply_fill(Side::Sell, 5, Px::from_paise(300));
    b.apply_mark(Px::from_paise(310));
    let c = pos(3);
    assert_eq!(state_of(&[&a, &b, &c], 1_000, 1_200), state_of(&[&c, &b, &a], 1_000, 1_200));
}

#[test]
fn a_session_keeps_its_highest_peak() {
    let mut p = pos(1);
    p.apply_fill(Side::Buy, 10, Px::from_paise(100));
    let mut peak = 1_000;
    let mut peaks = Vec::new();
    for mark in [90, 120, 110, 125, 80] {
        p.apply_mark(Px::from_paise(mark));
        let state = state_of(&[&p], 1_000, peak);
        assert!(state.drawdown_paise >= 0);
        peak = state.peak_equity_paise;
        peaks.push(peak);
    }
    assert_eq!(peaks, vec![1_000, 1_200, 1_200, 1_250, 1_250]);
    assert_eq!(state_of(&[], 700, 700), TraderRiskState::fresh(700));
}
