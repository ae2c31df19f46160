//! What a position keeps over a tape of fills: it follows the exact book while
//! nothing leaves the range, and a closed position has realised its cash.
use crate::base::arith::abs;
use crate::base::types::{Px, SymbolId};
use crate::position::laws::{
    law_average_stays_nonnegative, law_fill_conserves_cash, Book, Fill,
};
use crate::position::pnl::{
    closed_qty, leg_value, lemma_vwap_between, profit_on, scales, signed_fill,
};
use crate::position::position::PositionModel;
use vstd::prelude::*;

verus! {

/// Whether a number is a value of `i64`.
pub open spec fn fits_i64(x: int) -> bool {
    i64::MIN <= x <= i64::MAX
}

/// Whether a position holds what a book holds.
pub open spec fn agrees(p: PositionModel, b: Book) -> bool {
    &&& p.quantity == b.qty
    &&& p.avg_entry_px.0 == b.avg
    &&& p.realized_pnl_paise == b.realized
}

/// Whether a fill, and what it makes of a book, stays in the range of `i64`.
pub open spec fn step_fits(b: Book, f: Fill) -> bool {
    &&& f.qty <= u64::MAX
    &&& f.px <= i64::MAX
    &&& fits_i64(b.after(f).qty)
    &&& fits_i64(b.after(f).realized - b.realized)
    &&& fits_i64(b.after(f).realized)
}

/// Whether each fill of a tape stays in range.
pub open spec fn tape_fits(tape: Seq<Fill>) -> bool
    decreases tape.len(),
{
    tape.len() == 0 || {
        &&& tape_fits(tape.drop_last())
        &&& step_fits(Book::opening().after_all(tape.drop_last()), tape.last())
    }
}

/// A position after a tape.
pub open spec fn after_fills(p: PositionModel, tape: Seq<Fill>) -> PositionModel
    decreases tape.len(),
{
    if tape.len() == 0 {
        p
    } else {
        let f = tape.last();
        after_fills(p, tape.drop_last()).after_fill(f.side, f.qty as u64, Px(f.px as i64))
    }
}

/// How much a tape trades.
pub open spec fn volume(tape: Seq<Fill>) -> int
    decreases tape.len(),
{
    if tape.len() == 0 {
        0
    } else {
        volume(tape.drop_last()) + tape.last().qty
    }
}

/// What a tape trades for.
pub open spec fn value(tape: Seq<Fill>) -> int
    decreases tape.len(),
{
    if tape.len() == 0 {
        0
    } else {
        value(tape.drop_last()) + tape.last().qty * tape.last().px
    }
}

/// Whether a tape only buys, something each time.
pub open spec fn only_buys(tape: Seq<Fill>) -> bool {
    forall|i: int|
        0 <= i < tape.len() ==> (#[trigger] tape[i]).side is Buy && tape[i].qty > 0
}

/// Whether a tape only sells.
pub open spec fn only_sells(tape: Seq<Fill>) -> bool {
    forall|i: int| 0 <= i < tape.len() ==> (#[trigger] tape[i]).side is Sell
}

/// While nothing leaves the range, a fill makes of a position what it makes of
/// the book.
pub proof fn law_fill_follows_book(p: PositionModel, b: Book, f: Fill)
    requires
        agrees(p, b),
        b.avg >= 0,
        step_fits(b, f),
    ensures
        p.fits(f.side, f.qty as u64, Px(f.px as i64)),
        agrees(p.after_fill(f.side, f.qty as u64, Px(f.px as i64)), b.after(f)),
{
    let n = f.qty as int;
    let px = f.px as int;
    if f.qty > 0 && scales(b.qty, f.side) {
        lemma_vwap_between(b.qty, b.avg, n, px, 0, i64::MAX as int);
    }
    if scales(b.qty, f.side) {
        let q = abs(b.qty);
        assert(0 <= q * b.avg + n * px <= i128::MAX) by (nonlinear_arith)
            requires
                0 <= q,
                0 <= n,
                q + n <= 0x8000_0000_0000_0000,
                0 <= b.avg <= 0x7fff_ffff_ffff_ffff,
                0 <= px <= 0x7fff_ffff_ffff_ffff,
        ;
    }
}

/// While nothing leaves the range, a position over a tape holds what the book
/// holds.
pub proof fn law_position_follows_book(symbol: SymbolId, tape: Seq<Fill>)
    requires
        tape_fits(tape),
    ensures
        agrees(after_fills(PositionModel::flat(symbol), tape), Book::opening().after_all(tape)),
    decreases tape.len(),
{
    if tape.len() > 0 {
        let before = tape.drop_last();
        law_position_follows_book(symbol, before);
        law_average_stays_nonnegative(Book::opening(), before);
        law_fill_follows_book(
            after_fills(PositionModel::flat(symbol), before),
            Book::opening().after_all(before),
            tape.last(),
        );
    }
}

/// A position that is bought up and sold off again is flat, and has realised
/// what the sales brought less what the purchases cost, plus a rounding that is
/// never negative and at most the quantity for each purchase. Bought at one
/// price, nothing is lost to rounding.
pub proof fn law_closed_position_realizes_cash(
    symbol: SymbolId,
    buys: Seq<Fill>,
    sells: Seq<Fill>,
)
    requires
        buys.len() >= 1,
        only_buys(buys),
        only_sells(sells),
        volume(sells) == volume(buys),
        volume(buys) <= i64::MAX,
        value(buys) <= i64::MAX,
        value(sells) <= i64::MAX,
        forall|i: int| 0 <= i < buys.len() ==> (#[trigger] buys[i]).px <= i64::MAX,
        forall|i: int| 0 <= i < sells.len() ==> (#[trigger] sells[i]).px <= i64::MAX,
    ensures
        ({
            let end = after_fills(PositionModel::flat(symbol), buys + sells);
            let rounding = end.realized_pnl_paise - (value(sells) - value(buys));
            &&& end.quantity == 0
            &&& end.unrealized_pnl_paise == 0
            &&& 0 <= rounding < buys.len() * volume(buys) + 1
            &&& (forall|i: int| 0 <= i < buys.len() ==> (#[trigger] buys[i]).px == buys[0].px)
                ==> rounding == 0
        }),
{
    let b = Book::opening().after_all(buys + sells);
    lemma_bought(buys);
    lemma_sold(buys, sells);
    law_position_follows_book(symbol, buys + sells);
    lemma_never_marked(symbol, buys + sells);
    assert(b.avg * b.qty == 0) by (nonlinear_arith)
        requires
            b.qty == 0,
    ;
}

/// Without marks there is no unrealised profit.
proof fn lemma_never_marked(symbol: SymbolId, tape: Seq<Fill>)
    ensures
        !after_fills(PositionModel::flat(symbol), tape).marked,
        after_fills(PositionModel::flat(symbol), tape).unrealized_pnl_paise == 0,
    decreases tape.len(),
{
    if tape.len() > 0 {
        lemma_never_marked(symbol, tape.drop_last());
    }
}

proof fn lemma_sums_nonnegative(tape: Seq<Fill>)
    ensures
        volume(tape) >= 0,
        value(tape) >= 0,
    decreases tape.len(),
{
    if tape.len() > 0 {
        lemma_sums_nonnegative(tape.drop_last());
    }
}

/// The book after purchases alone.
proof fn lemma_bought(buys: Seq<Fill>)
    requires
        only_buys(buys),
        volume(buys) <= i64::MAX,
        forall|i: int| 0 <= i < buys.len() ==> (#[trigger] buys[i]).px <= i64::MAX,
    ensures
        ({
            let b = Book::opening().after_all(buys);
            &&& tape_fits(buys)
            &&& b.qty == volume(buys)
            &&& b.qty >= 0
            &&& buys.len() > 0 ==> b.qty > 0
            &&& b.realized == 0
            &&& b.cash == -value(buys)
            &&& b.avg >= 0
            &&& 0 <= b.drift() <= buys.len() * volume(buys)
            &&& (buys.len() > 0 && forall|i: int|
                0 <= i < buys.len() ==> (#[trigger] buys[i]).px == buys[0].px) ==> b.avg
                == buys[0].px && b.drift() == 0
        }),
    decreases buys.len(),
{
    let o = Book::opening();
    let b = o.after_all(buys);
    if buys.len() == 0 {
        assert(o.avg * o.qty == 0) by (nonlinear_arith)
            requires
                o.qty == 0,
        ;
        assert(buys.len() * volume(buys) == 0) by (nonlinear_arith)
            requires
                buys.len() == 0,
        ;
    } else {
        let before = buys.drop_last();
        let f = buys.last();
        assert(f == buys[buys.len() - 1]);
        lemma_sums_nonnegative(before);
        assert forall|i: int| 0 <= i < before.len() implies (#[trigger] before[i]).side is Buy
            && before[i].qty > 0 && before[i].px <= i64::MAX by {
            assert(before[i] == buys[i]);
        }
        lemma_bought(before);
        let m = o.after_all(before);
        law_average_stays_nonnegative(o, buys);
        law_fill_conserves_cash(m, f);
        assert(profit_on(m.qty, m.avg, 0, f.px as int) == 0);
        let k = before.len() as int;
        let v = volume(before);
        let w = volume(buys);
        assert(k * v + w <= (k + 1) * w) by (nonlinear_arith)
            requires
                0 <= k,
                0 <= v <= w,
        ;
        if forall|i: int| 0 <= i < buys.len() ==> (#[trigger] buys[i]).px == buys[0].px {
            let p = buys[0].px as int;
            assert(f.px == p);
            if k > 0 {
                assert(before[0] == buys[0]);
                assert forall|i: int| 0 <= i < before.len() implies (#[trigger] before[i]).px
                    == before[0].px by {
                    assert(before[i] == buys[i]);
                }
                let den = m.qty + f.qty;
                let num = leg_value(m.qty, m.avg, f.qty as int, p);
                assert(num == den * p) by (nonlinear_arith)
                    requires
                        num == m.qty * p + f.qty as int * p,
                        den == m.qty + f.qty,
                ;
                assert((den * p) / den == p && (den * p) % den == 0 && den * p >= 0)
                    by (nonlinear_arith)
                    requires
                        den > 0,
                        p >= 0,
                ;
            }
        }
    }
}

/// The book after purchases and then sales of no more than was bought.
proof fn lemma_sold(buys: Seq<Fill>, sells: Seq<Fill>)
    requires
        buys.len() >= 1,
        only_buys(buys),
        only_sells(sells),
        volume(sells) <= volume(buys) <= i64::MAX,
        value(buys) <= i64::MAX,
        value(sells) <= i64::MAX,
        forall|i: int| 0 <= i < buys.len() ==> (#[trigger] buys[i]).px <= i64::MAX,
        forall|i: int| 0 <= i < sells.len() ==> (#[trigger] sells[i]).px <= i64::MAX,
    ensures
        ({
            let bought = Book::opening().after_all(buys);
            let b = Book::opening().after_all(buys + sells);
            &&& tape_fits(buys + sells)
            &&& b.qty == volume(buys) - volume(sells)
            &&& b.cash == value(sells) - value(buys)
            &&& b.realized == value(sells) - bought.avg * volume(sells)
            &&& b.qty > 0 ==> b.avg == bought.avg
            &&& b.avg >= 0
            &&& b.drift() == bought.drift()
        }),
    decreases sells.len(),
{
    let o = Book::opening();
    let bought = o.after_all(buys);
    let tape = buys + sells;
    lemma_bought(buys);
    if sells.len() == 0 {
        assert(tape =~= buys);
        assert(bought.avg * volume(sells) == 0) by (nonlinear_arith)
            requires
                volume(sells) == 0,
        ;
    } else {
        let before = sells.drop_last();
        let f = sells.last();
        let n = f.qty as int;
        let px = f.px as int;
        assert(f == sells[sells.len() - 1]);
        assert forall|i: int| 0 <= i < before.len() implies (#[trigger] before[i]).side is Sell
            && before[i].px <= i64::MAX by {
            assert(before[i] == sells[i]);
        }
        lemma_sums_nonnegative(before);
        assert(n * px >= 0) by (nonlinear_arith)
            requires
                n >= 0,
                px >= 0,
        ;
        lemma_sold(buys, before);
        assert(tape.drop_last() =~= buys + before);
        assert(tape.last() == f);
        let m = o.after_all(buys + before);
        law_average_stays_nonnegative(o, tape);
        law_fill_conserves_cash(m, f);
        let a = bought.avg;
        let v = volume(before);
        let q = volume(buys);
        assert(0 <= a * v && 0 <= a * n && a * (v + n) == a * v + a * n && a * (v + n) <= a * q)
            by (nonlinear_arith)
            requires
                a >= 0,
                0 <= v,
                0 <= n,
                v + n <= q,
        ;
        assert(a * q <= value(buys));
        if n == 0 {
            assert(profit_on(m.qty, m.avg, 0, px) == 0);
        } else {
            assert(m.qty > 0);
            assert(closed_qty(m.qty, f.side, n) == n);
            assert((px - a) * n == n * px - a * n) by (nonlinear_arith);
        }
        assert(signed_fill(f.side, n) * px == -(n * px)) by (nonlinear_arith)
            requires
                signed_fill(f.side, n) == -n,
        ;
        assert(step_fits(m, f));
    }
}

} // verus!
