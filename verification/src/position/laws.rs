//! Conservation laws of the profit arithmetic, over exact integers.
use crate::base::arith::abs;
use crate::base::types::Side;
use crate::position::pnl::{
    avg_after, closed_qty, leg_value, profit_on, quantity_after, realized_by, scales, signed_fill,
};
use vstd::prelude::*;

verus! {

/// One fill of a tape.
pub struct Fill {
    pub side: Side,
    pub qty: nat,
    pub px: nat,
}

/// A position followed over a tape of fills, together with the cash that went
/// in and out for them.
pub struct Book {
    pub qty: int,
    pub avg: int,
    pub realized: int,
    pub cash: int,
}

impl Book {
    /// A book that has seen no fill.
    pub open spec fn opening() -> Book {
        Book { qty: 0, avg: 0, realized: 0, cash: 0 }
    }

    /// The book after one fill: a buy pays its value, a sell receives it.
    pub open spec fn after(self, f: Fill) -> Book {
        Book {
            qty: quantity_after(self.qty, f.side, f.qty as int),
            avg: avg_after(self.qty, self.avg, f.side, f.qty as int, f.px as int),
            realized: self.realized + realized_by(
                self.qty,
                self.avg,
                f.side,
                f.qty as int,
                f.px as int,
            ),
            cash: self.cash - signed_fill(f.side, f.qty as int) * f.px,
        }
    }

    /// The book after a whole tape.
    pub open spec fn after_all(self, tape: Seq<Fill>) -> Book
        decreases tape.len(),
    {
        if tape.len() == 0 {
            self
        } else {
            self.after_all(tape.drop_last()).after(tape.last())
        }
    }

    /// What the book has in realised profit beyond the cash it took in, once
    /// the open quantity is charged at its average price.
    pub open spec fn drift(self) -> int {
        self.realized - self.avg * self.qty - self.cash
    }

    /// The paise that the average price loses to rounding on one fill: only a
    /// scaling fill rounds, and it rounds by less than the new quantity.
    pub open spec fn rounding(self, f: Fill) -> int {
        if f.qty > 0 && scales(self.qty, f.side) {
            leg_value(self.qty, self.avg, f.qty as int, f.px as int) % (abs(self.qty) + f.qty)
        } else {
            0
        }
    }

    /// Upper bound on the rounding of a whole tape: for each scaling fill, one
    /// less than the quantity it leads to.
    pub open spec fn rounding_room(self, tape: Seq<Fill>) -> int
        decreases tape.len(),
    {
        if tape.len() == 0 {
            0
        } else {
            let before = self.after_all(tape.drop_last());
            let f = tape.last();
            self.rounding_room(tape.drop_last()) + if f.qty > 0 && scales(before.qty, f.side) {
                abs(before.qty) + f.qty - 1
            } else {
                0
            }
        }
    }

    /// Whether each scaling fill of the tape trades at the average price that it
    /// meets.
    pub open spec fn scales_at_entry_price(self, tape: Seq<Fill>) -> bool
        decreases tape.len(),
    {
        tape.len() == 0 || {
            let before = self.after_all(tape.drop_last());
            let f = tape.last();
            &&& self.scales_at_entry_price(tape.drop_last())
            &&& f.qty > 0 && scales(before.qty, f.side) ==> f.px == before.avg
        }
    }
}

/// The average entry price never turns negative.
pub proof fn law_average_stays_nonnegative(b: Book, tape: Seq<Fill>)
    requires
        b.avg >= 0,
    ensures
        b.after_all(tape).avg >= 0,
    decreases tape.len(),
{
    if tape.len() > 0 {
        law_average_stays_nonnegative(b, tape.drop_last());
        let m = b.after_all(tape.drop_last());
        let f = tape.last();
        if f.qty > 0 && scales(m.qty, f.side) {
            let num = leg_value(m.qty, m.avg, f.qty as int, f.px as int);
            let den = abs(m.qty) + f.qty;
            assert(num >= 0) by (nonlinear_arith)
                requires
                    num == abs(m.qty) * m.avg + f.qty as int * f.px as int,
                    abs(m.qty) >= 0,
                    m.avg >= 0,
                    f.qty >= 0,
                    f.px >= 0,
            ;
            assert(num / den >= 0) by (nonlinear_arith)
                requires
                    num >= 0,
                    den > 0,
            ;
        }
    }
}

/// A fill moves realised profit and cash together: it changes the drift only by
/// what the new average price loses to rounding, in favour of a long and against
/// a short.
pub proof fn law_fill_conserves_cash(b: Book, f: Fill)
    requires
        b.avg >= 0,
    ensures
        b.after(f).drift() - b.drift() == if b.qty >= 0 {
            b.rounding(f)
        } else {
            -b.rounding(f)
        },
        0 <= b.rounding(f),
        f.qty > 0 && scales(b.qty, f.side) ==> b.rounding(f) < abs(b.after(f).qty),
{
    let n = f.qty as int;
    let p = f.px as int;
    let q = b.qty;
    let a = b.avg;
    let s = signed_fill(f.side, n);
    let c = b.after(f);
    if n == 0 {
        assert(s * p == 0) by (nonlinear_arith)
            requires
                s == 0,
        ;
        assert(profit_on(q, a, 0, p) == 0);
        assert(closed_qty(q, f.side, n) == 0);
    } else if q == 0 {
        assert(c.avg * c.qty == p * s);
        assert(p * s == s * p) by (nonlinear_arith);
        assert(a * q == 0) by (nonlinear_arith)
            requires
                q == 0,
        ;
        assert(profit_on(q, a, 0, p) == 0);
    } else if scales(q, f.side) {
        let num = leg_value(q, a, n, p);
        let den = abs(q) + n;
        assert(num >= 0) by (nonlinear_arith)
            requires
                num == abs(q) * a + n * p,
                abs(q) >= 0,
                a >= 0,
                n >= 0,
                p >= 0,
        ;
        assert(num == den * (num / den) + num % den) by (nonlinear_arith)
            requires
                den > 0,
        ;
        assert(0 <= num % den < den) by (nonlinear_arith)
            requires
                den > 0,
        ;
        assert(c.avg == num / den);
        if q > 0 {
            assert(c.avg * c.qty == den * (num / den)) by (nonlinear_arith)
                requires
                    c.avg == num / den,
                    c.qty == den,
            ;
            assert(abs(q) * a == a * q) by (nonlinear_arith)
                requires
                    abs(q) == q,
            ;
        } else {
            assert(c.avg * c.qty == -(den * (num / den))) by (nonlinear_arith)
                requires
                    c.avg == num / den,
                    c.qty == -den,
            ;
            assert(abs(q) * a == -(a * q)) by (nonlinear_arith)
                requires
                    abs(q) == -q,
            ;
            assert(s * p == -(n * p)) by (nonlinear_arith)
                requires
                    s == -n,
            ;
        }
        assert(profit_on(q, a, 0, p) == 0);
    } else {
        let k = closed_qty(q, f.side, n);
        if q > 0 {
            assert(s * p == -(n * p)) by (nonlinear_arith)
                requires
                    s == -n,
            ;
            if n > q {
                assert(c.avg * c.qty == p * (q - n));
                assert((p - a) * q - p * (q - n) == n * p - a * q) by (nonlinear_arith);
            } else if n == q {
                assert(c.avg * c.qty == 0) by (nonlinear_arith)
                    requires
                        c.qty == 0,
                ;
                assert((p - a) * n == n * p - a * q) by (nonlinear_arith)
                    requires
                        n == q,
                ;
            } else {
                assert(c.avg * c.qty == a * (q - n));
                assert((p - a) * n - a * (q - n) == n * p - a * q) by (nonlinear_arith);
            }
        } else {
            if n > -q {
                assert(c.avg * c.qty == p * (q + n));
                assert((a - p) * (-q) - p * (q + n) == -(n * p) - a * q) by (nonlinear_arith);
            } else if n == -q {
                assert(c.avg * c.qty == 0) by (nonlinear_arith)
                    requires
                        c.qty == 0,
                ;
                assert((a - p) * n == -(n * p) - a * q) by (nonlinear_arith)
                    requires
                        n == -q,
                ;
            } else {
                assert(c.avg * c.qty == a * (q + n));
                assert((a - p) * n - a * (q + n) == -(n * p) - a * q) by (nonlinear_arith);
            }
        }
    }
}

/// Over any tape the drift stays within the rounding of its scaling fills.
pub proof fn law_tape_drift_is_bounded(tape: Seq<Fill>)
    ensures
        abs(Book::opening().after_all(tape).drift()) <= Book::opening().rounding_room(tape),
    decreases tape.len(),
{
    let o = Book::opening();
    if tape.len() == 0 {
        assert(o.avg * o.qty == 0) by (nonlinear_arith)
            requires
                o.qty == 0,
        ;
    } else {
        law_tape_drift_is_bounded(tape.drop_last());
        law_average_stays_nonnegative(o, tape.drop_last());
        let m = o.after_all(tape.drop_last());
        law_fill_conserves_cash(m, tape.last());
    }
}

/// A closed book that only ever scaled at its entry price has realised exactly
/// the cash it took in.
pub proof fn law_closed_book_realizes_cash(tape: Seq<Fill>)
    requires
        Book::opening().scales_at_entry_price(tape),
    ensures
        Book::opening().after_all(tape).drift() == 0,
        Book::opening().after_all(tape).qty == 0 ==> Book::opening().after_all(tape).realized
            == Book::opening().after_all(tape).cash,
    decreases tape.len(),
{
    let o = Book::opening();
    let e = o.after_all(tape);
    if tape.len() == 0 {
        assert(o.avg * o.qty == 0) by (nonlinear_arith)
            requires
                o.qty == 0,
        ;
    } else {
        law_closed_book_realizes_cash(tape.drop_last());
        law_average_stays_nonnegative(o, tape.drop_last());
        let m = o.after_all(tape.drop_last());
        let f = tape.last();
        law_fill_conserves_cash(m, f);
        if f.qty > 0 && scales(m.qty, f.side) {
            let den = abs(m.qty) + f.qty;
            let num = leg_value(m.qty, m.avg, f.qty as int, f.px as int);
            assert(num == den * m.avg) by (nonlinear_arith)
                requires
                    num == abs(m.qty) * m.avg + f.qty as int * f.px as int,
                    f.px == m.avg,
                    den == abs(m.qty) + f.qty,
            ;
            assert((den * m.avg) % den == 0) by (nonlinear_arith)
                requires
                    den > 0,
            ;
        }
    }
    if e.qty == 0 {
        assert(e.avg * e.qty == 0) by (nonlinear_arith)
            requires
                e.qty == 0,
        ;
    }
}

/// Two fills of one side at one price, from flat, are one fill of both
/// quantities.
pub proof fn law_partial_fills_add_up(b: Book, side: Side, first: nat, second: nat, px: nat)
    requires
        b.qty == 0,
        first > 0,
        second > 0,
    ensures
        b.after(Fill { side, qty: first, px }).after(Fill { side, qty: second, px }) == b.after(
            Fill { side, qty: first + second, px },
        ),
{
    let m = b.after(Fill { side, qty: first, px });
    let num = leg_value(m.qty, m.avg, second as int, px as int);
    let den = (first + second) as int;
    let p = px as int;
    assert(abs(m.qty) == first);
    assert(num == p * den) by (nonlinear_arith)
        requires
            num == first as int * p + second as int * p,
            den == first + second,
    ;
    assert(p * den >= 0) by (nonlinear_arith)
        requires
            p >= 0,
            den >= 0,
    ;
    assert((p * den) / den == p) by (nonlinear_arith)
        requires
            den > 0,
    ;
    let s1 = signed_fill(side, first as int);
    let s2 = signed_fill(side, second as int);
    let s3 = signed_fill(side, (first + second) as int);
    assert(s1 * p + s2 * p == s3 * p) by (nonlinear_arith)
        requires
            s1 + s2 == s3,
    ;
    assert(profit_on(m.qty, m.avg, 0, p) == 0);
    assert(profit_on(b.qty, b.avg, 0, p) == 0);
}

/// Opening a quantity and closing it whole realises the price difference on
/// that quantity and leaves the book flat.
pub proof fn law_open_then_close(side: Side, qty: nat, entry: nat, exit: nat)
    requires
        qty > 0,
    ensures
        ({
            let end = Book::opening().after(Fill { side, qty, px: entry }).after(
                Fill { side: side.flipped(), qty, px: exit },
            );
            &&& end.qty == 0
            &&& end.avg == 0
            &&& end.realized == match side {
                Side::Buy => (exit - entry) * qty,
                Side::Sell => (entry - exit) * qty,
            }
        }),
{
    let o = Book::opening();
    let m = o.after(Fill { side, qty, px: entry });
    assert(profit_on(o.qty, o.avg, 0, entry as int) == 0);
    assert(closed_qty(m.qty, side.flipped(), qty as int) == qty);
}

} // verus!
