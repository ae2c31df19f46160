//! The live state of one symbol.
use crate::base::arith::{abs, clamp_i64, clamp_to_i64, magnitude, saturating_add_i64, wrap_i64};
use crate::base::types::{Px, Side, SymbolId};
use crate::position::allocations::{
    empty_list, list_as_slice, list_from_slice, AllocationList, StrategyAllocation,
};
use crate::position::pnl::{
    apply_fill_inner, avg_after, fill_fits, quantity_after, realized_by, unrealized_at,
    unrealized_pnl_paise,
};
use vstd::prelude::*;

verus! {

/// A position: all money is in paise.
#[derive(Debug)]
pub struct Position {
    pub symbol: SymbolId,
    /// Signed net quantity.
    pub quantity: i64,
    /// Volume-weighted average entry price; zero when flat.
    pub avg_entry_px: Px,
    /// Profit realised by closing fills.
    pub realized_pnl_paise: i64,
    /// Profit of the open quantity at the last mark. Zero until a mark arrives.
    pub unrealized_pnl_paise: i64,
    /// The last mark price, zero while there was none.
    pub last_mark_px: Px,
    /// Whether a mark has arrived.
    pub marked: bool,
    /// Attribution to strategies.
    pub strategy_allocations: AllocationList,
}

/// What a position holds.
pub struct PositionModel {
    pub symbol: SymbolId,
    pub quantity: i64,
    pub avg_entry_px: Px,
    pub realized_pnl_paise: i64,
    pub unrealized_pnl_paise: i64,
    pub last_mark_px: Px,
    pub marked: bool,
    pub strategy_allocations: Seq<StrategyAllocation>,
}

impl PositionModel {
    /// A position that holds nothing and has seen nothing.
    pub open spec fn flat(symbol: SymbolId) -> PositionModel {
        PositionModel {
            symbol,
            quantity: 0,
            avg_entry_px: Px(0),
            realized_pnl_paise: 0,
            unrealized_pnl_paise: 0,
            last_mark_px: Px(0),
            marked: false,
            strategy_allocations: Seq::empty(),
        }
    }

    /// The value of the open quantity at its average price, held at the ends of the
    /// range.
    pub open spec fn exposure(self) -> int {
        clamp_i64(abs(self.quantity as int) * self.avg_entry_px.0)
    }

    /// Whether a fill can be formed in the arithmetic of the position.
    pub open spec fn fits(self, side: Side, fill_qty: u64, fill_px: Px) -> bool {
        fill_fits(
            self.quantity as int,
            self.avg_entry_px.0 as int,
            side,
            fill_qty as int,
            fill_px.0 as int,
        )
    }

    /// The profit that a fill realises.
    pub open spec fn fill_profit(self, side: Side, fill_qty: u64, fill_px: Px) -> int {
        wrap_i64(
            realized_by(
                self.quantity as int,
                self.avg_entry_px.0 as int,
                side,
                fill_qty as int,
                fill_px.0 as int,
            ),
        )
    }

    /// The position after a fill.
    pub open spec fn after_fill(self, side: Side, fill_qty: u64, fill_px: Px) -> PositionModel {
        let quantity = wrap_i64(quantity_after(self.quantity as int, side, fill_qty as int)) as i64;
        let avg = avg_after(
            self.quantity as int,
            self.avg_entry_px.0 as int,
            side,
            fill_qty as int,
            fill_px.0 as int,
        ) as i64;
        PositionModel {
            quantity,
            avg_entry_px: Px(avg),
            realized_pnl_paise: clamp_i64(
                self.realized_pnl_paise + self.fill_profit(side, fill_qty, fill_px),
            ) as i64,
            unrealized_pnl_paise: if self.marked {
                wrap_i64(unrealized_at(quantity as int, avg as int, self.last_mark_px.0 as int))
                    as i64
            } else {
                0
            },
            ..self
        }
    }

    /// The position after a mark.
    pub open spec fn after_mark(self, mark_px: Px) -> PositionModel {
        PositionModel {
            last_mark_px: mark_px,
            marked: true,
            unrealized_pnl_paise: wrap_i64(
                unrealized_at(
                    self.quantity as int,
                    self.avg_entry_px.0 as int,
                    mark_px.0 as int,
                ),
            ) as i64,
            ..self
        }
    }
}

impl View for Position {
    type V = PositionModel;

    open spec fn view(&self) -> PositionModel {
        PositionModel {
            symbol: self.symbol,
            quantity: self.quantity,
            avg_entry_px: self.avg_entry_px,
            realized_pnl_paise: self.realized_pnl_paise,
            unrealized_pnl_paise: self.unrealized_pnl_paise,
            last_mark_px: self.last_mark_px,
            marked: self.marked,
            strategy_allocations: self.strategy_allocations@,
        }
    }
}

impl Position {
    /// A flat position on `symbol`.
    pub fn flat(symbol: SymbolId) -> (p: Position)
        ensures
            p@ == PositionModel::flat(symbol),
    {
        Position {
            symbol,
            quantity: 0,
            avg_entry_px: Px(0),
            realized_pnl_paise: 0,
            unrealized_pnl_paise: 0,
            last_mark_px: Px(0),
            marked: false,
            strategy_allocations: empty_list(),
        }
    }

    /// A second position that holds the same.
    pub fn duplicate(&self) -> (p: Position)
        ensures
            p@ == self@,
    {
        Position {
            symbol: self.symbol,
            quantity: self.quantity,
            avg_entry_px: self.avg_entry_px,
            realized_pnl_paise: self.realized_pnl_paise,
            unrealized_pnl_paise: self.unrealized_pnl_paise,
            last_mark_px: self.last_mark_px,
            marked: self.marked,
            strategy_allocations: list_from_slice(list_as_slice(&self.strategy_allocations)),
        }
    }

    pub fn is_flat(&self) -> (flat: bool)
        ensures
            flat == (self.quantity == 0),
    {
        self.quantity == 0
    }

    /// The value of the open quantity at its average price, held at the ends of the
    /// range.
    pub fn exposure_paise(&self) -> (paise: i64)
        ensures
            paise == self@.exposure(),
    {
        let qty: i128 = magnitude(self.quantity) as i128;
        let px: i128 = self.avg_entry_px.0 as i128;
        assert(-0x8000_0000_0000_0000 * 0x8000_0000_0000_0000 <= qty * px
            <= 0x8000_0000_0000_0000 * 0x8000_0000_0000_0000) by (nonlinear_arith)
            requires
                0 <= qty <= 0x8000_0000_0000_0000,
                -0x8000_0000_0000_0000 <= px <= 0x8000_0000_0000_0000,
        ;
        clamp_to_i64(qty * px)
    }

    /// Realised plus unrealised profit, held at the ends of the range.
    pub fn total_pnl_paise(&self) -> (paise: i64)
        ensures
            paise == clamp_i64(self.realized_pnl_paise + self.unrealized_pnl_paise),
    {
        saturating_add_i64(self.realized_pnl_paise, self.unrealized_pnl_paise)
    }

    /// Whether a fill can be formed in the arithmetic of the position. Every
    /// fill of at most `i64::MAX` units can.
    pub fn fill_fits(&self, side: Side, fill_qty: u64, fill_px: Px) -> (fits: bool)
        ensures
            fits == self@.fits(side, fill_qty, fill_px),
    {
        let scales = match side {
            Side::Buy => self.quantity > 0,
            Side::Sell => self.quantity < 0,
        };
        let qty: i128 = magnitude(self.quantity) as i128;
        let avg: i128 = self.avg_entry_px.0 as i128;
        let fill: i128 = fill_qty as i128;
        let px: i128 = fill_px.0 as i128;
        assert(-0x8000_0000_0000_0000 * 0x8000_0000_0000_0000 <= qty * avg
            <= 0x8000_0000_0000_0000 * 0x8000_0000_0000_0000) by (nonlinear_arith)
            requires
                0 <= qty <= 0x8000_0000_0000_0000,
                -0x8000_0000_0000_0000 <= avg <= 0x8000_0000_0000_0000,
        ;
        assert(-0x1_0000_0000_0000_0000 * 0x8000_0000_0000_0000 <= fill * px
            <= 0x1_0000_0000_0000_0000 * 0x7fff_ffff_ffff_ffff) by (nonlinear_arith)
            requires
                0 <= fill < 0x1_0000_0000_0000_0000,
                -0x8000_0000_0000_0000 <= px <= 0x7fff_ffff_ffff_ffff,
        ;
        !scales || (qty * avg).checked_add(fill * px).is_some()
    }

    /// Fold a fill into the position and return the profit that it realised.
    pub fn apply_fill(&mut self, side: Side, fill_qty: u64, fill_px: Px) -> (delta: i64)
        requires
            old(self)@.fits(side, fill_qty, fill_px),
        ensures
            final(self)@ == old(self)@.after_fill(side, fill_qty, fill_px),
            delta == old(self)@.fill_profit(side, fill_qty, fill_px),
    {
        let outcome = apply_fill_inner(self.quantity, self.avg_entry_px, side, fill_qty, fill_px);
        self.quantity = outcome.new_quantity;
        self.avg_entry_px = outcome.new_avg_entry_px;
        self.realized_pnl_paise =
            saturating_add_i64(self.realized_pnl_paise, outcome.delta_realized_paise);
        self.unrealized_pnl_paise = if self.marked {
            unrealized_pnl_paise(self.quantity, self.avg_entry_px, self.last_mark_px)
        } else {
            0
        };
        outcome.delta_realized_paise
    }

    /// Take a new mark price and return the unrealised profit at it.
    pub fn apply_mark(&mut self, mark_px: Px) -> (unrealized: i64)
        ensures
            final(self)@ == old(self)@.after_mark(mark_px),
            unrealized == final(self)@.unrealized_pnl_paise,
    {
        self.last_mark_px = mark_px;
        self.marked = true;
        self.unrealized_pnl_paise =
            unrealized_pnl_paise(self.quantity, self.avg_entry_px, mark_px);
        self.unrealized_pnl_paise
    }

    /// Replace the strategy allocations.
    pub fn set_strategy_allocations(&mut self, allocs: &[StrategyAllocation])
        ensures
            final(self)@ == (PositionModel { strategy_allocations: allocs@, ..old(self)@ }),
    {
        self.strategy_allocations = list_from_slice(allocs);
    }

    pub fn strategy_allocations(&self) -> (allocs: &[StrategyAllocation])
        ensures
            allocs@ == self@.strategy_allocations,
    {
        list_as_slice(&self.strategy_allocations)
    }
}

impl Default for Position {
    /// A flat position on symbol zero.
    fn default() -> (p: Position)
        ensures
            p@ == PositionModel::flat(SymbolId(0)),
    {
        Position::flat(SymbolId(0))
    }
}

/// A mark moves only the mark price and the unrealised profit.
pub proof fn law_marks_never_modify_realized(p: PositionModel, mark_px: Px)
    ensures
        p.after_mark(mark_px).realized_pnl_paise == p.realized_pnl_paise,
        p.after_mark(mark_px).quantity == p.quantity,
        p.after_mark(mark_px).avg_entry_px == p.avg_entry_px,
        p.after_mark(mark_px).strategy_allocations == p.strategy_allocations,
{
}

/// A flat position has no unrealised profit, at any mark.
pub proof fn law_flat_has_no_unrealized(p: PositionModel, mark_px: Px)
    requires
        p.quantity == 0,
    ensures
        p.after_mark(mark_px).unrealized_pnl_paise == 0,
{
    assert(unrealized_at(0, p.avg_entry_px.0 as int, mark_px.0 as int) == 0);
}

/// A fill leaves the unrealised profit at zero until the first mark, and then
/// consistent with the last one.
pub proof fn law_fill_keeps_unrealized_current(
    p: PositionModel,
    side: Side,
    fill_qty: u64,
    fill_px: Px,
)
    ensures
        !p.marked ==> p.after_fill(side, fill_qty, fill_px).unrealized_pnl_paise == 0,
        p.marked ==> p.after_fill(side, fill_qty, fill_px) == p.after_fill(
            side,
            fill_qty,
            fill_px,
        ).after_mark(p.last_mark_px),
{
}

} // verus!
