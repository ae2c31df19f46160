//! Volume-weighted average entry price and profit arithmetic, in whole paise.
//!
//! A quantity is signed: positive for a long, negative for a short, zero when
//! flat. A fill in the direction of the position moves the average entry price;
//! a fill against it realises profit on the part that it closes, and what is
//! left of the fill opens a new leg at the fill price.
use crate::base::arith::{abs, magnitude, min, narrow_i64, trunc_div, wrap_i64};
use crate::base::types::{Px, Side};
use vstd::prelude::*;

verus! {

/// What one fill makes of a position.
#[derive(Clone, Copy, Debug, PartialEq, Eq, Structural)]
pub struct FillOutcome {
    /// Signed quantity after the fill.
    pub new_quantity: i64,
    /// Average entry price after the fill; zero once the position is flat.
    pub new_avg_entry_px: Px,
    /// Profit realised by this fill alone, in paise.
    pub delta_realized_paise: i64,
}

/// The fill quantity with the sign of its side.
pub open spec fn signed_fill(side: Side, fill_qty: int) -> int {
    match side {
        Side::Buy => fill_qty,
        Side::Sell => -fill_qty,
    }
}

/// Whether a fill adds to a position that is already open on its side.
pub open spec fn scales(qty: int, side: Side) -> bool {
    match side {
        Side::Buy => qty > 0,
        Side::Sell => qty < 0,
    }
}

/// Whether a fill trades against an open position.
pub open spec fn opposes(qty: int, side: Side) -> bool {
    qty != 0 && !scales(qty, side)
}

/// The value of the position at its average price plus that of the fill.
pub open spec fn leg_value(qty: int, avg: int, fill_qty: int, fill_px: int) -> int {
    abs(qty) * avg + fill_qty * fill_px
}

/// The volume-weighted average of the open leg and the fill.
pub open spec fn vwap(qty: int, avg: int, fill_qty: int, fill_px: int) -> int {
    trunc_div(leg_value(qty, avg, fill_qty, fill_px), abs(qty) + fill_qty)
}

/// The quantity that a fill against the position closes.
pub open spec fn closed_qty(qty: int, side: Side, fill_qty: int) -> int {
    if opposes(qty, side) {
        min(abs(qty), fill_qty)
    } else {
        0
    }
}

/// The profit of closing `closed` at `fill_px` what was opened at `avg`.
pub open spec fn profit_on(qty: int, avg: int, closed: int, fill_px: int) -> int {
    if qty > 0 {
        (fill_px - avg) * closed
    } else {
        (avg - fill_px) * closed
    }
}

/// Quantity after a fill, before it is narrowed to 64 bits.
pub open spec fn quantity_after(qty: int, side: Side, fill_qty: int) -> int {
    qty + signed_fill(side, fill_qty)
}

/// Average entry price after a fill.
pub open spec fn avg_after(qty: int, avg: int, side: Side, fill_qty: int, fill_px: int) -> int {
    if fill_qty == 0 {
        avg
    } else if qty == 0 {
        fill_px
    } else if scales(qty, side) {
        vwap(qty, avg, fill_qty, fill_px)
    } else if fill_qty > abs(qty) {
        fill_px
    } else if fill_qty == abs(qty) {
        0
    } else {
        avg
    }
}

/// Profit that a fill realises, before it is narrowed to 64 bits.
pub open spec fn realized_by(
    qty: int,
    avg: int,
    side: Side,
    fill_qty: int,
    fill_px: int,
) -> int {
    profit_on(qty, avg, closed_qty(qty, side, fill_qty), fill_px)
}

/// Whether the volume-weighted sum of a scaling fill fits the 128 bits in which
/// it is formed.
pub open spec fn fill_fits(qty: int, avg: int, side: Side, fill_qty: int, fill_px: int) -> bool {
    scales(qty, side) ==> i128::MIN <= leg_value(qty, avg, fill_qty, fill_px) <= i128::MAX
}

/// A weighted average lies between the two prices that it averages.
pub proof fn lemma_vwap_between(qty: int, avg: int, fill_qty: int, fill_px: int, lo: int, hi: int)
    requires
        qty != 0,
        fill_qty > 0,
        lo <= avg <= hi,
        lo <= fill_px <= hi,
    ensures
        min(lo, 0) <= vwap(qty, avg, fill_qty, fill_px) <= crate::base::arith::max(hi, 0),
        0 <= lo ==> lo <= vwap(qty, avg, fill_qty, fill_px),
{
    let a = abs(qty);
    let den = a + fill_qty;
    let num = leg_value(qty, avg, fill_qty, fill_px);
    assert(den * lo <= num <= den * hi) by (nonlinear_arith)
        requires
            den == a + fill_qty,
            num == a * avg + fill_qty * fill_px,
            a > 0,
            fill_qty > 0,
            lo <= avg <= hi,
            lo <= fill_px <= hi,
    ;
    if num >= 0 {
        assert(num / den <= hi || num / den <= 0) by (nonlinear_arith)
            requires
                den > 0,
                0 <= num <= den * hi,
        ;
        assert(num / den >= 0) by (nonlinear_arith)
            requires
                den > 0,
                num >= 0,
        ;
        if 0 <= lo {
            assert(num / den >= lo) by (nonlinear_arith)
                requires
                    den > 0,
                    num >= den * lo,
            ;
        }
    } else {
        let m = -num;
        assert(den * (-lo) == -(den * lo)) by (nonlinear_arith);
        assert(m / den <= -lo) by (nonlinear_arith)
            requires
                den > 0,
                m <= den * (-lo),
        ;
        assert(m / den >= 0) by (nonlinear_arith)
            requires
                den > 0,
                m >= 0,
        ;
        if 0 <= lo {
            assert(den * lo >= 0) by (nonlinear_arith)
                requires
                    den > 0,
                    lo >= 0,
            ;
        }
    }
}

/// Closing nothing realises nothing.
proof fn lemma_nothing_closed(qty: int, avg: int, fill_px: int)
    ensures
        profit_on(qty, avg, 0, fill_px) == 0,
{
}

/// Fold one fill into the position `(old_qty, old_avg)`.
///
/// Quantities and profits are formed exactly and narrowed to 64 bits at the end.
pub fn apply_fill_inner(
    old_qty: i64,
    old_avg: Px,
    side: Side,
    fill_qty: u64,
    fill_px: Px,
) -> (out: FillOutcome)
    requires
        fill_fits(
            old_qty as int,
            old_avg.0 as int,
            side,
            fill_qty as int,
            fill_px.0 as int,
        ),
    ensures
        out.new_quantity == wrap_i64(quantity_after(old_qty as int, side, fill_qty as int)),
        out.new_avg_entry_px.0 == avg_after(
            old_qty as int,
            old_avg.0 as int,
            side,
            fill_qty as int,
            fill_px.0 as int,
        ),
        out.delta_realized_paise == wrap_i64(
            realized_by(
                old_qty as int,
                old_avg.0 as int,
                side,
                fill_qty as int,
                fill_px.0 as int,
            ),
        ),
{
    if fill_qty == 0 {
        proof {
            lemma_nothing_closed(old_qty as int, old_avg.0 as int, fill_px.0 as int);
        }
        return FillOutcome {
            new_quantity: old_qty,
            new_avg_entry_px: old_avg,
            delta_realized_paise: 0,
        };
    }
    let signed: i128 = match side {
        Side::Buy => fill_qty as i128,
        Side::Sell => -(fill_qty as i128),
    };
    let new_quantity: i64 = narrow_i64(old_qty as i128 + signed);
    if old_qty == 0 {
        return FillOutcome { new_quantity, new_avg_entry_px: fill_px, delta_realized_paise: 0 };
    }
    let same_direction = match side {
        Side::Buy => old_qty > 0,
        Side::Sell => old_qty < 0,
    };
    let abs_old: i128 = magnitude(old_qty) as i128;
    let abs_fill: i128 = fill_qty as i128;
    let avg: i128 = old_avg.0 as i128;
    let px: i128 = fill_px.0 as i128;
    if same_direction {
        proof {
            assert(-0x8000_0000_0000_0000 * 0x8000_0000_0000_0000 <= abs_old * avg
                <= 0x8000_0000_0000_0000 * 0x8000_0000_0000_0000) by (nonlinear_arith)
                requires
                    0 <= abs_old <= 0x8000_0000_0000_0000,
                    -0x8000_0000_0000_0000 <= avg <= 0x8000_0000_0000_0000,
            ;
            assert(-0x1_0000_0000_0000_0000 * 0x8000_0000_0000_0000 <= abs_fill * px
                <= 0x1_0000_0000_0000_0000 * 0x7fff_ffff_ffff_ffff) by (nonlinear_arith)
                requires
                    0 <= abs_fill < 0x1_0000_0000_0000_0000,
                    -0x8000_0000_0000_0000 <= px <= 0x7fff_ffff_ffff_ffff,
            ;
            lemma_vwap_between(
                old_qty as int,
                avg as int,
                fill_qty as int,
                px as int,
                i64::MIN as int,
                i64::MAX as int,
            );
        }
        let new_avg: i128 = (abs_old * avg + abs_fill * px) / (abs_old + abs_fill);
        FillOutcome {
            new_quantity,
            new_avg_entry_px: Px(new_avg as i64),
            delta_realized_paise: 0,
        }
    } else {
        let close_qty: i128 = if abs_old <= abs_fill {
            abs_old
        } else {
            abs_fill
        };
        proof {
            assert(-0xffff_ffff_ffff_ffff * 0x8000_0000_0000_0000 <= (px - avg) * close_qty
                <= 0xffff_ffff_ffff_ffff * 0x8000_0000_0000_0000) by (nonlinear_arith)
                requires
                    0 <= close_qty <= 0x8000_0000_0000_0000,
                    -0xffff_ffff_ffff_ffff <= px - avg <= 0xffff_ffff_ffff_ffff,
            ;
            assert((avg - px) * close_qty == -((px - avg) * close_qty)) by (nonlinear_arith);
        }
        let realized: i128 = if old_qty > 0 {
            (px - avg) * close_qty
        } else {
            (avg - px) * close_qty
        };
        let new_avg_entry_px: Px = if abs_fill > abs_old {
            fill_px
        } else if new_quantity == 0 {
            Px(0)
        } else {
            old_avg
        };
        FillOutcome { new_quantity, new_avg_entry_px, delta_realized_paise: narrow_i64(realized) }
    }
}

/// Unrealised profit at a mark price, before it is narrowed to 64 bits.
pub open spec fn unrealized_at(qty: int, avg: int, mark: int) -> int {
    (mark - avg) * qty
}

/// Unrealised profit of `qty` opened at `avg_entry_px`, valued at `mark_px`.
pub fn unrealized_pnl_paise(qty: i64, avg_entry_px: Px, mark_px: Px) -> (paise: i64)
    ensures
        paise == wrap_i64(unrealized_at(qty as int, avg_entry_px.0 as int, mark_px.0 as int)),
{
    let diff: i128 = mark_px.0 as i128 - avg_entry_px.0 as i128;
    assert(-0xffff_ffff_ffff_ffff * 0x8000_0000_0000_0000 <= diff * qty
        <= 0xffff_ffff_ffff_ffff * 0x8000_0000_0000_0000) by (nonlinear_arith)
        requires
            -0x8000_0000_0000_0000 <= qty <= 0x8000_0000_0000_0000,
            -0xffff_ffff_ffff_ffff <= diff <= 0xffff_ffff_ffff_ffff,
    ;
    if qty == 0 {
        assert(diff * qty == 0) by (nonlinear_arith)
            requires
                qty == 0,
        ;
        return 0;
    }
    narrow_i64(diff * qty as i128)
}

} // verus!
