//! The account-wide risk state: exposure, drawdown, margin and peak equity.
use crate::base::arith::{
    clamp_i64, clamp_to_i64, held_difference, held_sum, max, trunc_div,
};
use crate::position::position::{Position, PositionModel};
use vstd::prelude::*;

verus! {

/// Risk of the whole account, in paise.
#[derive(Clone, Copy, Debug, PartialEq, Eq, Structural)]
pub struct TraderRiskState {
    /// Value of all open quantities at their average prices.
    pub aggregate_exposure_paise: i64,
    /// How far equity stands below its peak; never negative.
    pub drawdown_paise: i64,
    /// Base capital and realised profit less exposure.
    pub available_margin_paise: i64,
    /// The highest equity seen.
    pub peak_equity_paise: i64,
}

/// The state of a session that has not traded.
pub open spec fn fresh_state(base: i64) -> TraderRiskState {
    TraderRiskState {
        aggregate_exposure_paise: 0,
        drawdown_paise: 0,
        available_margin_paise: base,
        peak_equity_paise: base,
    }
}

impl TraderRiskState {
    /// The state of a session that has not traded.
    pub fn fresh(base_capital_paise: i64) -> (state: TraderRiskState)
        ensures
            state == fresh_state(base_capital_paise),
    {
        TraderRiskState {
            aggregate_exposure_paise: 0,
            drawdown_paise: 0,
            available_margin_paise: base_capital_paise,
            peak_equity_paise: base_capital_paise,
        }
    }

    /// Exposure in whole rupees, rounded toward zero.
    pub fn aggregate_exposure_inr(&self) -> (inr: i64)
        ensures
            inr == trunc_div(self.aggregate_exposure_paise as int, 100),
    {
        self.aggregate_exposure_paise / 100
    }

    /// Drawdown in whole rupees, rounded toward zero.
    pub fn drawdown_inr(&self) -> (inr: i64)
        ensures
            inr == trunc_div(self.drawdown_paise as int, 100),
    {
        self.drawdown_paise / 100
    }

    /// Margin in whole rupees, rounded toward zero.
    pub fn available_margin_inr(&self) -> (inr: i64)
        ensures
            inr == trunc_div(self.available_margin_paise as int, 100),
    {
        self.available_margin_paise / 100
    }

    /// Peak equity in whole rupees, rounded toward zero.
    pub fn peak_equity_inr(&self) -> (inr: i64)
        ensures
            inr == trunc_div(self.peak_equity_paise as int, 100),
    {
        self.peak_equity_paise / 100
    }
}

/// The sum of a sequence.
pub open spec fn total(values: Seq<int>) -> int
    decreases values.len(),
{
    if values.len() == 0 {
        0
    } else {
        total(values.drop_last()) + values.last()
    }
}

/// Exposure of each position.
pub open spec fn exposures(positions: Seq<PositionModel>) -> Seq<int> {
    positions.map_values(|p: PositionModel| p.exposure())
}

/// Realised profit of each position.
pub open spec fn realized(positions: Seq<PositionModel>) -> Seq<int> {
    positions.map_values(|p: PositionModel| p.realized_pnl_paise as int)
}

/// Unrealised profit of each position.
pub open spec fn unrealized(positions: Seq<PositionModel>) -> Seq<int> {
    positions.map_values(|p: PositionModel| p.unrealized_pnl_paise as int)
}

/// What the positions of a slice hold.
pub open spec fn models(positions: Seq<Position>) -> Seq<PositionModel> {
    positions.map_values(|p: Position| p@)
}

/// The risk state that follows from the totals over all positions. Equity is
/// base capital plus all profit; margin counts realised profit only.
pub open spec fn risk_state_of(
    exposure: int,
    realized: int,
    unrealized: int,
    base: int,
    previous_peak: int,
) -> TraderRiskState {
    let equity = base + realized + unrealized;
    let peak = max(equity, previous_peak);
    TraderRiskState {
        aggregate_exposure_paise: clamp_i64(exposure) as i64,
        drawdown_paise: clamp_i64(peak - equity) as i64,
        available_margin_paise: clamp_i64(base + realized - exposure) as i64,
        peak_equity_paise: clamp_i64(peak) as i64,
    }
}

/// Recompute the risk state from all positions and the previous peak.
pub fn aggregate_state(
    positions: &[Position],
    base_capital_paise: i64,
    previous_peak_equity_paise: i64,
) -> (state: TraderRiskState)
    ensures
        state == risk_of(
            models(positions@),
            base_capital_paise,
            previous_peak_equity_paise,
        ),
{
    let ghost all = models(positions@);
    let mut exposure: i128 = 0;
    let mut gained: i128 = 0;
    let mut open: i128 = 0;
    let n: usize = positions.len();
    let mut i: usize = 0;
    while i < n
        invariant
            i <= n,
            n == positions@.len(),
            n <= 0xffff_ffff_ffff_ffff,
            all == models(positions@),
            exposure == total(exposures(all).take(i as int)),
            gained == total(realized(all).take(i as int)),
            open == total(unrealized(all).take(i as int)),
            -0x8000_0000_0000_0000 * i <= exposure <= 0x8000_0000_0000_0000 * i,
            -0x8000_0000_0000_0000 * i <= gained <= 0x7fff_ffff_ffff_ffff * i,
            -0x8000_0000_0000_0000 * i <= open <= 0x8000_0000_0000_0000 * i,
        decreases n - i,
    {
        let p = &positions[i];
        proof {
            lemma_total_step(exposures(all), i as int);
            lemma_total_step(realized(all), i as int);
            lemma_total_step(unrealized(all), i as int);
        }
        exposure = exposure + p.exposure_paise() as i128;
        gained = gained + p.realized_pnl_paise as i128;
        open = open + p.unrealized_pnl_paise as i128;
        i = i + 1;
    }
    proof {
        assert(exposures(all).take(n as int) =~= exposures(all));
        assert(realized(all).take(n as int) =~= realized(all));
        assert(unrealized(all).take(n as int) =~= unrealized(all));
    }
    let funds: i128 = base_capital_paise as i128 + gained;
    let equity: i128 = held_sum(funds, open);
    let peak: i128 = if equity >= previous_peak_equity_paise as i128 {
        equity
    } else {
        previous_peak_equity_paise as i128
    };
    TraderRiskState {
        aggregate_exposure_paise: clamp_to_i64(exposure),
        drawdown_paise: clamp_to_i64(held_difference(peak, equity)),
        available_margin_paise: clamp_to_i64(held_difference(funds, exposure)),
        peak_equity_paise: clamp_to_i64(peak),
    }
}

/// The total up to an index grows by the value there.
pub proof fn lemma_total_step(values: Seq<int>, i: int)
    requires
        0 <= i < values.len(),
    ensures
        total(values.take(i + 1)) == total(values.take(i)) + values[i],
{
    assert(values.take(i + 1).drop_last() =~= values.take(i));
}

/// The risk state of a list of positions.
pub open spec fn risk_of(
    positions: Seq<PositionModel>,
    base: i64,
    previous_peak: i64,
) -> TraderRiskState {
    risk_state_of(
        total(exposures(positions)),
        total(realized(positions)),
        total(unrealized(positions)),
        base as int,
        previous_peak as int,
    )
}

/// The peak equity after a session of states, each starting from the peak that
/// the one before left.
pub open spec fn peak_after(
    states: Seq<Seq<PositionModel>>,
    base: i64,
    first_peak: i64,
) -> i64
    decreases states.len(),
{
    if states.len() == 0 {
        first_peak
    } else {
        risk_of(
            states.last(),
            base,
            peak_after(states.drop_last(), base, first_peak),
        ).peak_equity_paise
    }
}

/// Peak equity never falls and drawdown is never negative.
pub proof fn law_peak_equity_is_monotone(
    positions: Seq<PositionModel>,
    base: i64,
    previous_peak: i64,
)
    ensures
        risk_of(positions, base, previous_peak).peak_equity_paise >= previous_peak,
        risk_of(positions, base, previous_peak).drawdown_paise >= 0,
{
}

/// Over a session the peak never falls: at any point it is at least what it was
/// at any earlier point.
pub proof fn law_session_peak_is_monotone(
    states: Seq<Seq<PositionModel>>,
    base: i64,
    first_peak: i64,
    earlier: int,
)
    requires
        0 <= earlier <= states.len(),
    ensures
        peak_after(states.take(earlier), base, first_peak) <= peak_after(states, base, first_peak),
    decreases states.len(),
{
    if earlier == states.len() {
        assert(states.take(earlier) =~= states);
    } else {
        let before = states.drop_last();
        law_session_peak_is_monotone(before, base, first_peak, earlier);
        assert(before.take(earlier) =~= states.take(earlier));
    }
}

/// The order in which positions are listed does not matter.
pub proof fn law_order_of_positions_does_not_matter(
    a: Seq<PositionModel>,
    b: Seq<PositionModel>,
    base: i64,
    previous_peak: i64,
)
    requires
        a.to_multiset() == b.to_multiset(),
    ensures
        risk_of(a, base, previous_peak) == risk_of(b, base, previous_peak),
{
    lemma_total_ignores_order(a, b, |p: PositionModel| p.exposure());
    lemma_total_ignores_order(a, b, |p: PositionModel| p.realized_pnl_paise as int);
    lemma_total_ignores_order(a, b, |p: PositionModel| p.unrealized_pnl_paise as int);
}

proof fn lemma_total_ignores_order(
    a: Seq<PositionModel>,
    b: Seq<PositionModel>,
    figure: spec_fn(PositionModel) -> int,
)
    requires
        a.to_multiset() == b.to_multiset(),
    ensures
        total(a.map_values(figure)) == total(b.map_values(figure)),
    decreases a.len(),
{
    broadcast use vstd::seq_lib::group_to_multiset_ensures;

    assert(a.len() == a.to_multiset().len() && b.len() == b.to_multiset().len());
    if a.len() == 0 {
        assert(a.map_values(figure) =~= b.map_values(figure));
    } else {
        let x = a.last();
        assert(a.contains(a[a.len() - 1]));
        assert(a.to_multiset().count(x) > 0);
        assert(b.contains(x));
        let i = choose|i: int| 0 <= i < b.len() && b[i] == x;
        assert(a.drop_last() =~= a.remove(a.len() - 1));
        lemma_total_ignores_order(a.drop_last(), b.remove(i), figure);
        assert(a.map_values(figure).drop_last() =~= a.drop_last().map_values(figure));
        lemma_total_without(b.map_values(figure), i);
        assert(b.map_values(figure).remove(i) =~= b.remove(i).map_values(figure));
    }
}

proof fn lemma_total_without(values: Seq<int>, i: int)
    requires
        0 <= i < values.len(),
    ensures
        total(values) == total(values.remove(i)) + values[i],
    decreases values.len(),
{
    if i == values.len() - 1 {
        assert(values.remove(i) =~= values.drop_last());
    } else {
        lemma_total_without(values.drop_last(), i);
        assert(values.remove(i).drop_last() =~= values.drop_last().remove(i));
        assert(values.remove(i).last() == values.last());
    }
}

/// Without positions, and with the peak at the base capital, the state is that
/// of a session that has not traded.
pub proof fn law_no_positions_is_fresh(base: i64)
    ensures
        risk_of(Seq::empty(), base, base) == fresh_state(base),
{
    assert(exposures(Seq::empty()) =~= Seq::empty());
    assert(realized(Seq::empty()) =~= Seq::empty());
    assert(unrealized(Seq::empty()) =~= Seq::empty());
}

/// While the sums stay in range, peak equity less drawdown is the equity, and
/// margin plus exposure is base capital plus realised profit.
pub proof fn law_equity_identity(
    exposure: int,
    realized: int,
    unrealized: int,
    base: i64,
    previous_peak: i64,
)
    requires
        i64::MIN <= exposure <= i64::MAX,
        i64::MIN <= base + realized - exposure <= i64::MAX,
        i64::MIN <= base + realized + unrealized <= i64::MAX,
        previous_peak - (base + realized + unrealized) <= i64::MAX,
    ensures
        ({
            let s = risk_state_of(
                exposure,
                realized,
                unrealized,
                base as int,
                previous_peak as int,
            );
            &&& s.peak_equity_paise - s.drawdown_paise == base + realized + unrealized
            &&& s.available_margin_paise + s.aggregate_exposure_paise == base + realized
        }),
{
}

} // verus!
