//! What fills and marks come to, in terms of quantities and prices.
use crate::base::types::{Px, Side, SymbolId};
use crate::position::engine::{
    aggregate_of, allocation_pairs, reports_position, EngineModel, PositionEvent,
    DEFAULT_POS_UPDATE_THROTTLE_NS,
};
use crate::position::pnl::{closed_qty, leg_value, profit_on};
use crate::position::position::PositionModel;
use crate::position::registry::{lemma_sum_without, sum_over};
use crate::position::risk_state::{exposures, realized, risk_of, total, unrealized};
use vstd::prelude::*;

verus! {

/// Whether a number is a value of `i64`.
pub open spec fn in_range(x: int) -> bool {
    -0x8000_0000_0000_0000 <= x <= 0x7fff_ffff_ffff_ffff
}

/// What a position costs: its quantity, long or short, at its average price.
pub open spec fn cost_of(p: PositionModel) -> int {
    if p.quantity >= 0 {
        p.quantity * p.avg_entry_px.0
    } else {
        (-(p.quantity as int)) * p.avg_entry_px.0
    }
}

/// The exposure of a position is its quantity, long or short, at its average price.
pub proof fn law_exposure_is_value_at_entry(p: PositionModel)
    requires
        in_range(cost_of(p)),
    ensures
        p.exposure() == cost_of(p),
{
}

/// A mark leaves the exposure of a position as it is.
pub proof fn law_marks_leave_exposure(p: PositionModel, mark_px: Px)
    ensures
        p.after_mark(mark_px).exposure() == p.exposure(),
{
}

/// A mark on one position of a list leaves the exposure and the margin of the account
/// as they are, whatever the peak.
pub proof fn law_marks_leave_margin(
    positions: Seq<PositionModel>,
    i: int,
    mark_px: Px,
    base: i64,
    peak: i64,
    other_peak: i64,
)
    requires
        0 <= i < positions.len(),
    ensures
        ({
            let marked = positions.update(i, positions[i].after_mark(mark_px));
            let before = risk_of(positions, base, peak);
            let after = risk_of(marked, base, other_peak);
            &&& after.aggregate_exposure_paise == before.aggregate_exposure_paise
            &&& after.available_margin_paise == before.available_margin_paise
        }),
{
    let marked = positions.update(i, positions[i].after_mark(mark_px));
    assert(exposures(marked) =~= exposures(positions));
    assert(realized(marked) =~= realized(positions));
}

/// The same of the positions of an engine, filed by symbol.
pub proof fn law_ticks_leave_margin(
    m: EngineModel,
    symbol: SymbolId,
    mark_px: Px,
    now_ns: u64,
    peak: int,
)
    requires
        m.positions.dom().finite(),
        m.positions.contains_key(symbol.0),
        m.positions[symbol.0].quantity != 0,
    ensures
        ({
            let before = aggregate_of(m.positions, m.base_capital_paise as int, peak);
            let after = m.after_tick(symbol, mark_px, now_ns).aggregate;
            &&& after.aggregate_exposure_paise == before.aggregate_exposure_paise
            &&& after.available_margin_paise == before.available_margin_paise
        }),
{
    let k = symbol.0;
    let after = m.positions.insert(k, m.positions[k].after_mark(mark_px));
    lemma_sum_unmoved(m.positions, after, k, |p: PositionModel| p.exposure());
    lemma_sum_unmoved(m.positions, after, k, |p: PositionModel| p.realized_pnl_paise as int);
}

/// A sum does not move with one position whose figure stays.
proof fn lemma_sum_unmoved(
    before: Map<u32, PositionModel>,
    after: Map<u32, PositionModel>,
    k: u32,
    figure: spec_fn(PositionModel) -> int,
)
    requires
        before.dom().finite(),
        before.contains_key(k),
        after == before.insert(k, after[k]),
        figure(after[k]) == figure(before[k]),
    ensures
        sum_over(after, figure) == sum_over(before, figure),
{
    assert(after.dom() =~= before.dom());
    lemma_sum_without(before, figure, k);
    lemma_sum_without(after, figure, k);
    assert(before.remove(k) =~= after.remove(k));
}

/// Without positions there is no exposure, all capital is margin, and the drawdown is
/// what the peak lies above the capital.
pub proof fn law_account_without_positions(base: i64, peak: i64)
    ensures
        ({
            let s = risk_of(Seq::<PositionModel>::empty(), base, peak);
            &&& s.aggregate_exposure_paise == 0
            &&& s.available_margin_paise == base
            &&& peak <= base ==> s.peak_equity_paise == base && s.drawdown_paise == 0
            &&& peak > base && in_range(peak - base) ==> s.peak_equity_paise == peak
                && s.drawdown_paise == peak - base
        }),
{
    let none = Seq::<PositionModel>::empty();
    assert(exposures(none).len() == 0 && realized(none).len() == 0 && unrealized(none).len() == 0);
}

/// Each position adds its cost to the exposure, takes it from the margin, and adds
/// what it has realised to the margin. The profit of it, realised or not, raises the
/// equity: the peak less the drawdown.
pub proof fn law_positions_add_up(
    positions: Seq<PositionModel>,
    p: PositionModel,
    base: i64,
    peak: i64,
)
    requires
        in_range(cost_of(p)),
        in_range(total(exposures(positions))),
        in_range(total(exposures(positions)) + cost_of(p)),
        in_range(base + total(realized(positions)) - total(exposures(positions))),
        in_range(
            base + total(realized(positions)) + p.realized_pnl_paise - total(exposures(positions))
                - cost_of(p),
        ),
        in_range(base + total(realized(positions)) + total(unrealized(positions))),
        in_range(
            base + total(realized(positions)) + total(unrealized(positions))
                + p.realized_pnl_paise + p.unrealized_pnl_paise,
        ),
        in_range(peak - (base + total(realized(positions)) + total(unrealized(positions)))),
        in_range(
            peak - (base + total(realized(positions)) + total(unrealized(positions))
                + p.realized_pnl_paise + p.unrealized_pnl_paise),
        ),
    ensures
        ({
            let before = risk_of(positions, base, peak);
            let after = risk_of(positions.push(p), base, peak);
            &&& after.aggregate_exposure_paise == before.aggregate_exposure_paise + cost_of(p)
            &&& after.available_margin_paise == before.available_margin_paise
                + p.realized_pnl_paise - cost_of(p)
            &&& after.peak_equity_paise - after.drawdown_paise == before.peak_equity_paise
                - before.drawdown_paise + p.realized_pnl_paise + p.unrealized_pnl_paise
        }),
{
    let grown = positions.push(p);
    assert(exposures(grown).drop_last() =~= exposures(positions));
    assert(realized(grown).drop_last() =~= realized(positions));
    assert(unrealized(grown).drop_last() =~= unrealized(positions));
}

/// The peak is never below the equity or the peak before, and one of the two; the
/// drawdown is what the equity lies below it.
pub proof fn law_peak_is_the_highest_equity(
    positions: Seq<PositionModel>,
    base: i64,
    peak: i64,
    equity: int,
)
    requires
        equity == base + total(realized(positions)) + total(unrealized(positions)),
        in_range(equity),
        in_range(peak - equity),
    ensures
        ({
            let s = risk_of(positions, base, peak);
            &&& s.peak_equity_paise >= equity && s.peak_equity_paise >= peak
            &&& s.peak_equity_paise == equity || s.peak_equity_paise == peak
            &&& s.drawdown_paise == s.peak_equity_paise - equity
        }),
{
}

/// A buy adds to the quantity, and a sell takes from it.
pub proof fn law_fills_move_the_quantity(p: PositionModel, qty: u64, px: Px)
    ensures
        in_range(p.quantity + qty) ==> p.after_fill(Side::Buy, qty, px).quantity == p.quantity
            + qty,
        in_range(p.quantity - qty) ==> p.after_fill(Side::Sell, qty, px).quantity == p.quantity
            - qty,
        p.after_fill(Side::Buy, 0, px).avg_entry_px == p.avg_entry_px,
        p.after_fill(Side::Sell, 0, px).avg_entry_px == p.avg_entry_px,
        p.after_fill(Side::Buy, qty, px).symbol == p.symbol,
        p.after_fill(Side::Buy, qty, px).strategy_allocations == p.strategy_allocations,
        p.after_fill(Side::Buy, qty, px).last_mark_px == p.last_mark_px,
        p.after_fill(Side::Sell, qty, px).symbol == p.symbol,
        p.after_fill(Side::Sell, qty, px).strategy_allocations == p.strategy_allocations,
        p.after_fill(Side::Sell, qty, px).last_mark_px == p.last_mark_px,
{
}

/// The first fill of a flat position sets its average price, and realises nothing.
pub proof fn law_opening_sets_the_average(p: PositionModel, side: Side, qty: u64, px: Px)
    requires
        p.quantity == 0,
        qty > 0,
    ensures
        p.after_fill(side, qty, px).avg_entry_px == px,
        p.after_fill(side, qty, px).realized_pnl_paise == p.realized_pnl_paise,
        p.fill_profit(side, qty, px) == 0,
{
    assert(profit_on(0, p.avg_entry_px.0 as int, 0, px.0 as int) == 0);
}

/// A fill in the direction of a position realises nothing, and moves the average to
/// that of both, weighted by quantity and rounded down.
pub proof fn law_scaling_averages_by_quantity(p: PositionModel, qty: u64, px: Px)
    requires
        qty > 0,
        p.quantity != 0,
        p.avg_entry_px.0 >= 0,
        px.0 >= 0,
    ensures
        ({
            let side = if p.quantity > 0 {
                Side::Buy
            } else {
                Side::Sell
            };
            let held: int = if p.quantity > 0 {
                p.quantity as int
            } else {
                -(p.quantity as int)
            };
            let after = p.after_fill(side, qty, px);
            let paid = held * p.avg_entry_px.0 + qty * px.0;
            &&& after.realized_pnl_paise == p.realized_pnl_paise
            &&& p.fill_profit(side, qty, px) == 0
            &&& (held + qty) * after.avg_entry_px.0 <= paid
            &&& paid < (held + qty) * (after.avg_entry_px.0 + 1)
        }),
{
    let side = if p.quantity > 0 {
        Side::Buy
    } else {
        Side::Sell
    };
    let q = p.quantity as int;
    let held = if q > 0 {
        q
    } else {
        -q
    };
    let a = p.avg_entry_px.0 as int;
    let n = qty as int;
    let x = px.0 as int;
    let num = leg_value(q, a, n, x);
    let den = held + n;
    crate::position::pnl::lemma_vwap_between(q, a, n, x, 0, i64::MAX as int);
    assert(num >= 0) by (nonlinear_arith)
        requires
            num == held * a + n * x,
            held >= 0,
            a >= 0,
            n >= 0,
            x >= 0,
    ;
    assert(den * (num / den) <= num && num < den * (num / den + 1)) by (nonlinear_arith)
        requires
            den > 0,
            num >= 0,
    ;
    assert(profit_on(q, a, 0, x) == 0);
}

/// Selling from a long realises what the price lies above the average, on the quantity
/// sold, and buying back a short what it lies below. What is left keeps its average; a
/// position that is flat has none.
pub proof fn law_closing_realizes_the_difference(p: PositionModel, qty: u64, px: Px)
    requires
        0 < qty,
        p.quantity > 0 ==> qty <= p.quantity,
        p.quantity < 0 ==> qty <= -(p.quantity as int),
        p.quantity != 0,
        in_range((px.0 - p.avg_entry_px.0) * qty),
        in_range((p.avg_entry_px.0 - px.0) * qty),
        in_range(p.realized_pnl_paise + (px.0 - p.avg_entry_px.0) * qty),
        in_range(p.realized_pnl_paise + (p.avg_entry_px.0 - px.0) * qty),
    ensures
        ({
            let long = p.quantity > 0;
            let side = if long {
                Side::Sell
            } else {
                Side::Buy
            };
            let gain = if long {
                (px.0 - p.avg_entry_px.0) * qty
            } else {
                (p.avg_entry_px.0 - px.0) * qty
            };
            let after = p.after_fill(side, qty, px);
            &&& after.realized_pnl_paise == p.realized_pnl_paise + gain
            &&& p.fill_profit(side, qty, px) == gain
            &&& after.quantity != 0 ==> after.avg_entry_px == p.avg_entry_px
            &&& after.quantity == 0 ==> after.avg_entry_px.0 == 0
        }),
{
    let side = if p.quantity > 0 {
        Side::Sell
    } else {
        Side::Buy
    };
    assert(closed_qty(p.quantity as int, side, qty as int) == qty);
}

/// A fill larger than the position it closes realises the difference on all that was
/// held, and opens the rest at its own price.
pub proof fn law_flipping_opens_the_rest(p: PositionModel, qty: u64, px: Px)
    requires
        p.quantity > 0 ==> qty > p.quantity,
        p.quantity < 0 ==> qty > -(p.quantity as int),
        p.quantity != 0,
        in_range((px.0 - p.avg_entry_px.0) * p.quantity),
        in_range(p.realized_pnl_paise + (px.0 - p.avg_entry_px.0) * p.quantity),
    ensures
        ({
            let side = if p.quantity > 0 {
                Side::Sell
            } else {
                Side::Buy
            };
            let gain = (px.0 - p.avg_entry_px.0) * p.quantity;
            let after = p.after_fill(side, qty, px);
            &&& after.realized_pnl_paise == p.realized_pnl_paise + gain
            &&& p.fill_profit(side, qty, px) == gain
            &&& after.avg_entry_px == px
        }),
{
    let side = if p.quantity > 0 {
        Side::Sell
    } else {
        Side::Buy
    };
    let q = p.quantity as int;
    let a = p.avg_entry_px.0 as int;
    let x = px.0 as int;
    if q > 0 {
        assert(closed_qty(q, side, qty as int) == q);
    } else {
        assert(closed_qty(q, side, qty as int) == -q);
        assert((a - x) * (-q) == (x - a) * q) by (nonlinear_arith);
    }
}

/// At a mark, a position has what the mark lies above its average, on its quantity:
/// a short gains where the mark lies below. A fill after a mark is valued at it.
pub proof fn law_marks_value_the_quantity(
    p: PositionModel,
    mark_px: Px,
    side: Side,
    qty: u64,
    px: Px,
)
    ensures
        in_range((mark_px.0 - p.avg_entry_px.0) * p.quantity) ==> p.after_mark(
            mark_px,
        ).unrealized_pnl_paise == (mark_px.0 - p.avg_entry_px.0) * p.quantity,
        p.after_mark(mark_px).last_mark_px == mark_px,
        p.after_mark(mark_px).marked,
        ({
            let after = p.after_mark(mark_px).after_fill(side, qty, px);
            let worth = (mark_px.0 - after.avg_entry_px.0) * after.quantity;
            in_range(worth) ==> after.unrealized_pnl_paise == worth
        }),
        !p.marked ==> p.after_fill(side, qty, px).unrealized_pnl_paise == 0,
{
}

/// A tick reports the position of its symbol where it is open and was not reported
/// within the throttle; a symbol that was never reported counts from time zero.
pub proof fn law_positions_are_reported_when_due(m: EngineModel, symbol: SymbolId, now_ns: u64)
    ensures
        m.tick_reports_position(symbol, now_ns) ==> m.positions.contains_key(symbol.0)
            && m.positions[symbol.0].quantity != 0,
        m.positions.contains_key(symbol.0) && m.positions[symbol.0].quantity != 0
            && m.last_emit_ns.contains_key(symbol.0) && m.throttle_ns > 0 ==> (
        m.tick_reports_position(symbol, now_ns) <==> now_ns - m.last_emit_ns[symbol.0]
            >= m.throttle_ns),
        m.positions.contains_key(symbol.0) && m.positions[symbol.0].quantity != 0
            && !m.last_emit_ns.contains_key(symbol.0) ==> (m.tick_reports_position(symbol, now_ns)
            <==> now_ns >= m.throttle_ns),
        m.throttle_ns == DEFAULT_POS_UPDATE_THROTTLE_NS ==> m.throttle_ns == 100_000_000,
{
}

/// A tick marks the position of its symbol at its price, and nothing else of the
/// positions. A report starts the throttle anew.
pub proof fn law_ticks_mark_their_symbol(
    m: EngineModel,
    symbol: SymbolId,
    mark_px: Px,
    now_ns: u64,
)
    ensures
        ({
            let after = m.after_tick(symbol, mark_px, now_ns);
            &&& !m.positions.contains_key(symbol.0) ==> after == m
            &&& m.positions.contains_key(symbol.0) ==> {
                let was = m.positions[symbol.0];
                let is = after.positions[symbol.0];
                &&& after.positions.dom() == m.positions.dom()
                &&& is.last_mark_px == mark_px && is.marked
                &&& is.quantity == was.quantity && is.avg_entry_px == was.avg_entry_px
                &&& is.realized_pnl_paise == was.realized_pnl_paise
                &&& is.strategy_allocations == was.strategy_allocations
                &&& was.quantity == 0 ==> is.unrealized_pnl_paise == 0 && after.aggregate
                    == m.aggregate
                &&& in_range((mark_px.0 - was.avg_entry_px.0) * was.quantity) ==> is
                    .unrealized_pnl_paise == (mark_px.0 - was.avg_entry_px.0) * was.quantity
            }
            &&& m.tick_reports_position(symbol, now_ns) ==> after.last_emit_ns.contains_key(
                symbol.0,
            ) && after.last_emit_ns[symbol.0] == now_ns
            &&& !m.tick_reports_position(symbol, now_ns) ==> after.last_emit_ns == m.last_emit_ns
            &&& after.base_capital_paise == m.base_capital_paise && after.throttle_ns
                == m.throttle_ns
        }),
{
    let after = m.after_tick(symbol, mark_px, now_ns);
    if m.positions.contains_key(symbol.0) {
        assert(after.positions.dom() =~= m.positions.dom());
        let was = m.positions[symbol.0];
        if was.quantity == 0 {
            assert((mark_px.0 - was.avg_entry_px.0) * was.quantity == 0) by (nonlinear_arith)
                requires
                    was.quantity == 0,
            ;
        }
    }
}

/// A fill is folded into the position of its symbol, opened flat where there was none,
/// and counts as reported at its time.
pub proof fn law_fills_join_their_symbol(
    m: EngineModel,
    symbol: SymbolId,
    side: Side,
    qty: u64,
    px: Px,
    now_ns: u64,
)
    ensures
        ({
            let after = m.after_fill(symbol, side, qty, px, now_ns);
            let was = if m.positions.contains_key(symbol.0) {
                m.positions[symbol.0]
            } else {
                PositionModel::flat(symbol)
            };
            &&& after.positions.dom() == m.positions.dom().insert(symbol.0)
            &&& after.positions[symbol.0] == was.after_fill(side, qty, px)
            &&& after.last_emit_ns == m.last_emit_ns.insert(symbol.0, now_ns)
            &&& after.last_published == Some(after.aggregate)
            &&& after.base_capital_paise == m.base_capital_paise && after.throttle_ns
                == m.throttle_ns
        }),
        PositionModel::flat(symbol).quantity == 0,
        PositionModel::flat(symbol).realized_pnl_paise == 0,
        PositionModel::flat(symbol).unrealized_pnl_paise == 0,
        PositionModel::flat(symbol).avg_entry_px.0 == 0,
        !PositionModel::flat(symbol).marked,
        PositionModel::flat(symbol).strategy_allocations.len() == 0,
{
}

/// The allocations of one position come out in order, each with its symbol, and those
/// of a list of positions one position after the other.
pub proof fn law_allocations_keep_their_symbol(list: Seq<PositionModel>, p: PositionModel, i: int)
    ensures
        allocation_pairs(Seq::empty()).len() == 0,
        allocation_pairs(list.push(p)).len() == allocation_pairs(list).len()
            + p.strategy_allocations.len(),
        allocation_pairs(list.push(p)).take(allocation_pairs(list).len() as int)
            == allocation_pairs(list),
        0 <= i < p.strategy_allocations.len() ==> allocation_pairs(list.push(p))[allocation_pairs(
            list,
        ).len() + i] == (p.symbol, p.strategy_allocations[i]),
{
    assert(list.push(p).drop_last() =~= list);
    let all = allocation_pairs(list.push(p));
    assert(all.take(allocation_pairs(list).len() as int) =~= allocation_pairs(list));
}

/// The report of a position is under its symbol and shows the position.
pub proof fn law_reports_show_the_position(
    event: PositionEvent,
    symbol: SymbolId,
    position: PositionModel,
)
    ensures
        reports_position(event, symbol, position) <==> (event matches PositionEvent::PositionUpdate {
            symbol: s,
            snapshot,
        } && s == symbol && snapshot@ == position),
{
}

} // verus!
