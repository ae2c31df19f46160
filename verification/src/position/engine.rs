//! The registry of positions and the events that fills and ticks give rise to.
use crate::base::types::{Px, Side, SymbolId};
use crate::position::allocations::StrategyAllocation;
use crate::position::pnl::unrealized_pnl_paise;
use crate::position::position::{Position, PositionModel};
use crate::position::registry::{
    all_positions, count, lemma_sum_by_walk, lemma_walk_is_short, lookup, new_registry, picked,
    positions_held, store, sum_over, walks,
};
use crate::position::risk_state::{aggregate_state, models, risk_state_of, TraderRiskState};
use dashmap::DashMap;
use std::collections::HashMap;
use vstd::prelude::*;

verus! {

broadcast use vstd::std_specs::hash::group_hash_axioms;

/// Least time between two position updates of one symbol that ticks cause: ten
/// a second.
pub const DEFAULT_POS_UPDATE_THROTTLE_NS: u64 = 100_000_000;

/// An event for the outside to publish.
#[derive(Clone, Debug, PartialEq, Eq)]
pub enum PositionEvent {
    /// A symbol's position changed.
    PositionUpdate { symbol: SymbolId, snapshot: Box<PositionSnapshot> },
    /// The account's risk changed.
    RiskState(TraderRiskState),
}

/// A copy of a position, in plain values.
#[derive(Clone, Debug, PartialEq, Eq)]
pub struct PositionSnapshot {
    pub symbol: SymbolId,
    pub quantity: i64,
    pub avg_entry_px: Px,
    pub realized_pnl_paise: i64,
    pub unrealized_pnl_paise: i64,
    pub last_mark_px: Px,
    pub marked: bool,
    pub strategy_allocations: Vec<StrategyAllocation>,
}

impl View for PositionSnapshot {
    type V = PositionModel;

    open spec fn view(&self) -> PositionModel {
        PositionModel {
            symbol: self.symbol,
            quantity: self.quantity,
            avg_entry_px: self.avg_entry_px,
            realized_pnl_paise: self.realized_pnl_paise,
            unrealized_pnl_paise: self.unrealized_pnl_paise,
            last_mark_px: self.last_mark_px,
            marked: self.marked,
            strategy_allocations: self.strategy_allocations@,
        }
    }
}

impl PositionSnapshot {
    /// Copy a position.
    pub fn from_position(p: &Position) -> (s: PositionSnapshot)
        ensures
            s@ == p@,
    {
        let allocs = p.strategy_allocations();
        let mut strategy_allocations: Vec<StrategyAllocation> = Vec::new();
        let mut i: usize = 0;
        while i < allocs.len()
            invariant
                i <= allocs@.len(),
                strategy_allocations@ == allocs@.take(i as int),
            decreases allocs@.len() - i,
        {
            strategy_allocations.push(allocs[i]);
            i = i + 1;
            assert(allocs@.take(i as int) =~= allocs@.take(i - 1).push(allocs@[i - 1]));
        }
        assert(allocs@.take(allocs@.len() as int) =~= allocs@);
        PositionSnapshot {
            symbol: p.symbol,
            quantity: p.quantity,
            avg_entry_px: p.avg_entry_px,
            realized_pnl_paise: p.realized_pnl_paise,
            unrealized_pnl_paise: p.unrealized_pnl_paise,
            last_mark_px: p.last_mark_px,
            marked: p.marked,
            strategy_allocations,
        }
    }
}

/// Whether an event reports this position of this symbol.
pub open spec fn reports_position(
    event: PositionEvent,
    symbol: SymbolId,
    position: PositionModel,
) -> bool {
    match event {
        PositionEvent::PositionUpdate { symbol: s, snapshot } => s == symbol && snapshot@
            == position,
        PositionEvent::RiskState(_) => false,
    }
}

/// What a position engine holds.
pub struct EngineModel {
    pub positions: Map<u32, PositionModel>,
    pub aggregate: TraderRiskState,
    /// When each symbol's position was last reported.
    pub last_emit_ns: Map<u32, u64>,
    /// The risk state that was last reported.
    pub last_published: Option<TraderRiskState>,
    pub base_capital_paise: i64,
    pub throttle_ns: u64,
}

/// The risk state over all positions of a map.
pub open spec fn aggregate_of(
    positions: Map<u32, PositionModel>,
    base: int,
    previous_peak: int,
) -> TraderRiskState {
    risk_state_of(
        sum_over(positions, |p: PositionModel| p.exposure()),
        sum_over(positions, |p: PositionModel| p.realized_pnl_paise as int),
        sum_over(positions, |p: PositionModel| p.unrealized_pnl_paise as int),
        base,
        previous_peak,
    )
}

impl EngineModel {
    /// The position of a symbol, flat where none was opened yet.
    pub open spec fn position_at(self, symbol: SymbolId) -> PositionModel {
        if self.positions.contains_key(symbol.0) {
            self.positions[symbol.0]
        } else {
            PositionModel::flat(symbol)
        }
    }

    /// Whether ticks on a symbol are of interest: it has an open position.
    pub open spec fn holds(self, symbol: SymbolId) -> bool {
        self.positions.contains_key(symbol.0) && self.positions[symbol.0].quantity != 0
    }

    /// The model with one position replaced and the aggregate recomputed.
    pub open spec fn with_position(self, symbol: SymbolId, p: PositionModel) -> EngineModel {
        let positions = self.positions.insert(symbol.0, p);
        EngineModel {
            positions,
            aggregate: aggregate_of(
                positions,
                self.base_capital_paise as int,
                self.aggregate.peak_equity_paise as int,
            ),
            ..self
        }
    }

    /// The model after a fill: both the position and the risk state count as
    /// reported.
    pub open spec fn after_fill(
        self,
        symbol: SymbolId,
        side: Side,
        fill_qty: u64,
        fill_px: Px,
        now_ns: u64,
    ) -> EngineModel {
        let filled = self.with_position(
            symbol,
            self.position_at(symbol).after_fill(side, fill_qty, fill_px),
        );
        EngineModel {
            last_emit_ns: self.last_emit_ns.insert(symbol.0, now_ns),
            last_published: Some(filled.aggregate),
            ..filled
        }
    }

    /// Whether a tick at `now_ns` reports the position of its symbol: the
    /// throttle has elapsed since the last report.
    pub open spec fn tick_reports_position(self, symbol: SymbolId, now_ns: u64) -> bool {
        let last: int = if self.last_emit_ns.contains_key(symbol.0) {
            self.last_emit_ns[symbol.0] as int
        } else {
            0
        };
        self.holds(symbol) && (if now_ns >= last {
            now_ns - last
        } else {
            0
        }) >= self.throttle_ns
    }

    /// The model with the mark of a held symbol moved.
    pub open spec fn marked(self, symbol: SymbolId, mark_px: Px) -> EngineModel {
        self.with_position(symbol, self.position_at(symbol).after_mark(mark_px))
    }

    /// Whether a tick reports the risk state: it differs from the last report.
    pub open spec fn tick_reports_risk(self, symbol: SymbolId, mark_px: Px) -> bool {
        self.holds(symbol) && self.last_published != Some(self.marked(symbol, mark_px).aggregate)
    }

    /// The model after a tick. A symbol without a position changes nothing; a
    /// flat one only takes the mark.
    pub open spec fn after_tick(
        self,
        symbol: SymbolId,
        mark_px: Px,
        now_ns: u64,
    ) -> EngineModel {
        if !self.positions.contains_key(symbol.0) {
            self
        } else if !self.holds(symbol) {
            EngineModel {
                positions: self.positions.insert(
                    symbol.0,
                    PositionModel {
                        last_mark_px: mark_px,
                        marked: true,
                        unrealized_pnl_paise: 0,
                        ..self.positions[symbol.0]
                    },
                ),
                ..self
            }
        } else {
            let marked = self.marked(symbol, mark_px);
            EngineModel {
                last_emit_ns: if self.tick_reports_position(symbol, now_ns) {
                    self.last_emit_ns.insert(symbol.0, now_ns)
                } else {
                    self.last_emit_ns
                },
                last_published: Some(marked.aggregate),
                ..marked
            }
        }
    }
}

/// The allocations of a list of positions, each with the symbol of its position.
pub open spec fn allocation_pairs(list: Seq<PositionModel>) -> Seq<(SymbolId, StrategyAllocation)>
    decreases list.len(),
{
    if list.len() == 0 {
        Seq::empty()
    } else {
        allocation_pairs(list.drop_last()) + pairs_of(list.last())
    }
}

/// The allocations of one position with its symbol.
pub open spec fn pairs_of(p: PositionModel) -> Seq<(SymbolId, StrategyAllocation)> {
    p.strategy_allocations.map_values(|a: StrategyAllocation| (p.symbol, a))
}

/// Whether `pairs` lists the allocations of all positions, in some order of the
/// positions.
pub open spec fn pairs_over(
    pairs: Seq<(SymbolId, StrategyAllocation)>,
    held: Map<u32, PositionModel>,
) -> bool {
    exists|keys: Seq<u32>|
        #[trigger] walks(keys, held) && pairs == allocation_pairs(picked(keys, held))
}

/// Positions by symbol, the account's risk state, and what was reported last.
pub struct PositionEngine {
    positions: DashMap<u32, Position>,
    aggregate: TraderRiskState,
    last_emit_ns: HashMap<u32, u64>,
    last_published_aggregate: Option<TraderRiskState>,
    base_capital_paise: i64,
    pos_update_throttle_ns: u64,
}

impl View for PositionEngine {
    type V = EngineModel;

    closed spec fn view(&self) -> EngineModel {
        EngineModel {
            positions: positions_held(self.positions),
            aggregate: self.aggregate,
            last_emit_ns: self.last_emit_ns@,
            last_published: self.last_published_aggregate,
            base_capital_paise: self.base_capital_paise,
            throttle_ns: self.pos_update_throttle_ns,
        }
    }
}

impl PositionEngine {
    /// Finitely many positions, each filed under its own symbol.
    pub open spec fn wf(self) -> bool {
        &&& self@.positions.dom().finite()
        &&& forall|k: u32| #[trigger]
            self@.positions.contains_key(k) ==> self@.positions[k].symbol.0 == k
    }

    /// An engine with the default throttle.
    pub fn new(base_capital_paise: i64) -> (engine: PositionEngine)
        ensures
            engine.wf(),
            engine@.positions.dom() == Set::<u32>::empty(),
            engine@.last_emit_ns.dom() == Set::<u32>::empty(),
            engine@.last_published is None,
            engine@.aggregate == aggregate_of(
                engine@.positions,
                base_capital_paise as int,
                base_capital_paise as int,
            ),
            engine@.base_capital_paise == base_capital_paise,
            engine@.throttle_ns == DEFAULT_POS_UPDATE_THROTTLE_NS,
    {
        Self::with_throttle(base_capital_paise, DEFAULT_POS_UPDATE_THROTTLE_NS)
    }

    /// An engine with the given throttle.
    pub fn with_throttle(base_capital_paise: i64, pos_update_throttle_ns: u64) -> (engine:
        PositionEngine)
        ensures
            engine.wf(),
            engine@.positions.dom() == Set::<u32>::empty(),
            engine@.last_emit_ns.dom() == Set::<u32>::empty(),
            engine@.last_published is None,
            engine@.aggregate == aggregate_of(
                engine@.positions,
                base_capital_paise as int,
                base_capital_paise as int,
            ),
            engine@.base_capital_paise == base_capital_paise,
            engine@.throttle_ns == pos_update_throttle_ns,
    {
        PositionEngine {
            positions: new_registry(),
            aggregate: TraderRiskState::fresh(base_capital_paise),
            last_emit_ns: HashMap::new(),
            last_published_aggregate: None,
            base_capital_paise,
            pos_update_throttle_ns,
        }
    }

    /// Whether a fill on `symbol` can be formed in the arithmetic of its
    /// position.
    pub fn fill_fits(&self, symbol: SymbolId, side: Side, fill_qty: u64, fill_px: Px) -> (fits:
        bool)
        requires
            self.wf(),
        ensures
            fits == self@.position_at(symbol).fits(side, fill_qty, fill_px),
    {
        match lookup(&self.positions, symbol.0) {
            Some(p) => p.fill_fits(side, fill_qty, fill_px),
            None => true,
        }
    }

    /// Take a fill. It is always reported: the position first, then the risk
    /// state.
    pub fn on_fill(
        &mut self,
        symbol: SymbolId,
        side: Side,
        fill_qty: u64,
        fill_px: Px,
        now_ns: u64,
    ) -> (events: Vec<PositionEvent>)
        requires
            old(self).wf(),
            old(self)@.position_at(symbol).fits(side, fill_qty, fill_px),
        ensures
            final(self).wf(),
            final(self)@ == old(self)@.after_fill(symbol, side, fill_qty, fill_px, now_ns),
            events@.len() == 2,
            reports_position(events@[0], symbol, final(self)@.positions[symbol.0]),
            events@[1] == PositionEvent::RiskState(final(self)@.aggregate),
    {
        let mut p: Position = match lookup(&self.positions, symbol.0) {
            Some(p) => p,
            None => Position::flat(symbol),
        };
        p.apply_fill(side, fill_qty, fill_px);
        let snapshot = PositionSnapshot::from_position(&p);
        store(&mut self.positions, symbol.0, p);
        let new_state = self.recompute_aggregate();
        self.last_emit_ns.insert(symbol.0, now_ns);
        self.last_published_aggregate = Some(new_state);
        let mut out: Vec<PositionEvent> = Vec::new();
        out.push(PositionEvent::PositionUpdate { symbol, snapshot: Box::new(snapshot) });
        out.push(PositionEvent::RiskState(new_state));
        out
    }

    /// Take a tick. Nothing is reported for a symbol that is not held; for one
    /// that is, the position at most once per throttle interval and the risk
    /// state whenever it changed.
    pub fn on_tick(&mut self, symbol: SymbolId, mark_px: Px, now_ns: u64) -> (events: Vec<
        PositionEvent,
    >)
        requires
            old(self).wf(),
        ensures
            final(self).wf(),
            final(self)@ == old(self)@.after_tick(symbol, mark_px, now_ns),
            events@.len() == (if old(self)@.tick_reports_position(symbol, now_ns) {
                1int
            } else {
                0
            }) + (if old(self)@.tick_reports_risk(symbol, mark_px) {
                1int
            } else {
                0
            }),
            old(self)@.tick_reports_position(symbol, now_ns) ==> reports_position(
                events@[0],
                symbol,
                final(self)@.positions[symbol.0],
            ),
            old(self)@.tick_reports_risk(symbol, mark_px) ==> events@.last()
                == PositionEvent::RiskState(final(self)@.aggregate),
    {
        let mut events: Vec<PositionEvent> = Vec::new();
        let mut p: Position = match lookup(&self.positions, symbol.0) {
            Some(p) => p,
            None => {
                return events;
            },
        };
        if p.quantity == 0 {
            p.last_mark_px = mark_px;
            p.marked = true;
            p.unrealized_pnl_paise = 0;
            store(&mut self.positions, symbol.0, p);
            return events;
        }
        p.apply_mark(mark_px);
        let snapshot = PositionSnapshot::from_position(&p);
        store(&mut self.positions, symbol.0, p);
        let last_emit: u64 = match self.last_emit_ns.get(&symbol.0) {
            Some(at) => *at,
            None => 0,
        };
        let elapsed: u64 = now_ns.saturating_sub(last_emit);
        if elapsed >= self.pos_update_throttle_ns {
            self.last_emit_ns.insert(symbol.0, now_ns);
            events.push(PositionEvent::PositionUpdate { symbol, snapshot: Box::new(snapshot) });
        }
        let new_state = self.recompute_aggregate();
        let changed = match self.last_published_aggregate {
            Some(previous) => previous != new_state,
            None => true,
        };
        if changed {
            self.last_published_aggregate = Some(new_state);
            events.push(PositionEvent::RiskState(new_state));
        }
        events
    }

    /// The risk state as of the last recomputation.
    pub fn snapshot_risk_state(&self) -> (state: TraderRiskState)
        ensures
            state == self@.aggregate,
    {
        self.aggregate
    }

    /// A copy of the position of a symbol, where there is one.
    pub fn position_of(&self, symbol: SymbolId) -> (position: Option<Position>)
        ensures
            match position {
                Some(p) => self@.positions.contains_key(symbol.0) && p@
                    == self@.positions[symbol.0],
                None => !self@.positions.contains_key(symbol.0),
            },
    {
        lookup(&self.positions, symbol.0)
    }

    /// The allocations of all positions, each with its symbol. The order of the
    /// positions is not specified.
    pub fn strategy_allocations(&self) -> (pairs: Vec<(SymbolId, StrategyAllocation)>)
        ensures
            pairs_over(pairs@, self@.positions),
    {
        let all = all_positions(&self.positions);
        let ghost list = models(all@);
        let mut out: Vec<(SymbolId, StrategyAllocation)> = Vec::new();
        let mut i: usize = 0;
        while i < all.len()
            invariant
                i <= all@.len(),
                list == models(all@),
                out@ == allocation_pairs(list.take(i as int)),
            decreases all@.len() - i,
        {
            let symbol = all[i].symbol;
            let allocs = all[i].strategy_allocations();
            let ghost before = out@;
            let ghost here = pairs_of(list[i as int]);
            let mut j: usize = 0;
            while j < allocs.len()
                invariant
                    j <= allocs@.len(),
                    here.len() == allocs@.len(),
                    forall|m: int| 0 <= m < here.len() ==> here[m] == (symbol, allocs@[m]),
                    out@ == before + here.take(j as int),
                decreases allocs@.len() - j,
            {
                out.push((symbol, allocs[j]));
                j = j + 1;
                assert(here.take(j as int) =~= here.take(j - 1).push(here[j - 1]));
            }
            assert(here.take(here.len() as int) =~= here);
            i = i + 1;
            assert(list.take(i as int).drop_last() =~= list.take(i - 1));
        }
        assert(list.take(list.len() as int) =~= list);
        out
    }

    /// Replace the allocations of a symbol's position, opening a flat position
    /// where there was none.
    pub fn set_strategy_allocations(&mut self, symbol: SymbolId, allocs: &[StrategyAllocation])
        requires
            old(self).wf(),
        ensures
            final(self).wf(),
            final(self)@ == (EngineModel {
                positions: old(self)@.positions.insert(
                    symbol.0,
                    PositionModel {
                        strategy_allocations: allocs@,
                        ..old(self)@.position_at(symbol)
                    },
                ),
                ..old(self)@
            }),
    {
        let mut p: Position = match lookup(&self.positions, symbol.0) {
            Some(p) => p,
            None => Position::flat(symbol),
        };
        p.set_strategy_allocations(allocs);
        store(&mut self.positions, symbol.0, p);
    }

    /// Number of symbols with a position, open or flat.
    pub fn tracked_symbols(&self) -> (n: usize)
        ensures
            n == self@.positions.dom().len(),
    {
        count(&self.positions)
    }

    pub fn base_capital_paise(&self) -> (paise: i64)
        ensures
            paise == self@.base_capital_paise,
    {
        self.base_capital_paise
    }

    /// Recompute the aggregate over all positions.
    fn recompute_aggregate(&mut self) -> (state: TraderRiskState)
        requires
            old(self).wf(),
        ensures
            final(self)@ == (EngineModel { aggregate: state, ..old(self)@ }),
            state == aggregate_of(
                old(self)@.positions,
                old(self)@.base_capital_paise as int,
                old(self)@.aggregate.peak_equity_paise as int,
            ),
    {
        let all = all_positions(&self.positions);
        proof {
            let held = self@.positions;
            let list = models(all@);
            let keys = choose|keys: Seq<u32>| #[trigger] walks(keys, held) && list == picked(
                keys,
                held,
            );
            lemma_walk_is_short(keys);
            lemma_sum_by_walk(held, |p: PositionModel| p.exposure(), keys);
            lemma_sum_by_walk(held, |p: PositionModel| p.realized_pnl_paise as int, keys);
            lemma_sum_by_walk(held, |p: PositionModel| p.unrealized_pnl_paise as int, keys);
        }
        let state = aggregate_state(
            all.as_slice(),
            self.base_capital_paise,
            self.aggregate.peak_equity_paise,
        );
        self.aggregate = state;
        state
    }
}

/// Peak equity never falls, whatever comes in.
pub proof fn law_peak_never_falls(
    m: EngineModel,
    symbol: SymbolId,
    side: Side,
    fill_qty: u64,
    px: Px,
    now_ns: u64,
)
    ensures
        m.after_fill(symbol, side, fill_qty, px, now_ns).aggregate.peak_equity_paise
            >= m.aggregate.peak_equity_paise,
        m.after_tick(symbol, px, now_ns).aggregate.peak_equity_paise
            >= m.aggregate.peak_equity_paise,
{
}

/// Fills and ticks on one symbol leave the positions of the others alone.
pub proof fn law_other_symbols_unaffected(
    m: EngineModel,
    symbol: SymbolId,
    other: SymbolId,
    side: Side,
    fill_qty: u64,
    px: Px,
    now_ns: u64,
)
    requires
        other != symbol,
    ensures
        m.after_fill(symbol, side, fill_qty, px, now_ns).position_at(other) == m.position_at(
            other,
        ),
        m.after_tick(symbol, px, now_ns).position_at(other) == m.position_at(other),
{
}

/// A tick at the price of the tick before it does not report the risk state
/// again, nor the position while the throttle runs.
pub proof fn law_repeated_tick_is_silent(
    m: EngineModel,
    symbol: SymbolId,
    mark_px: Px,
    first_ns: u64,
    second_ns: u64,
)
    ensures
        !m.after_tick(symbol, mark_px, first_ns).tick_reports_risk(symbol, mark_px),
        m.tick_reports_position(symbol, first_ns) && second_ns - first_ns < m.throttle_ns
            && m.throttle_ns > 0 ==> !m.after_tick(
            symbol,
            mark_px,
            first_ns,
        ).tick_reports_position(symbol, second_ns),
{
    if m.holds(symbol) {
        let once = m.after_tick(symbol, mark_px, first_ns);
        let again = once.marked(symbol, mark_px);
        assert(once.position_at(symbol).after_mark(mark_px) == once.position_at(symbol));
        assert(again.positions =~= once.positions);
    }
}

/// The first tick after a fill reports no position while the throttle runs.
pub proof fn law_fill_starts_the_throttle(
    m: EngineModel,
    symbol: SymbolId,
    side: Side,
    fill_qty: u64,
    px: Px,
    fill_ns: u64,
    tick_ns: u64,
)
    requires
        m.throttle_ns > 0,
        tick_ns - fill_ns < m.throttle_ns,
    ensures
        !m.after_fill(symbol, side, fill_qty, px, fill_ns).tick_reports_position(symbol, tick_ns),
{
}

/// The unrealised profit that a tick at `mark_px` would give.
pub fn project_unrealized(qty: i64, avg_entry_px: Px, mark_px: Px) -> (paise: i64)
    ensures
        paise == crate::base::arith::wrap_i64(
            crate::position::pnl::unrealized_at(
                qty as int,
                avg_entry_px.0 as int,
                mark_px.0 as int,
            ),
        ),
{
    unrealized_pnl_paise(qty, avg_entry_px, mark_px)
}

} // verus!
