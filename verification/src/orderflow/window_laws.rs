//! What a run of trades leaves in the volume window.
use crate::base::arith::cap_u64;
use crate::base::types::Side;
use crate::orderflow::metrics::{buyers, sellers, sum_since, DeltaBucket, DeltaModel};
use vstd::prelude::*;

verus! {

/// Volumes counted at one time.
pub struct Trade {
    pub at_ns: u64,
    pub buyer_volume: u64,
    pub seller_volume: u64,
}

impl Trade {
    /// The volume of one side.
    pub open spec fn volume(self, side: Side) -> int {
        match side {
            Side::Buy => self.buyer_volume as int,
            Side::Sell => self.seller_volume as int,
        }
    }
}

/// The volume of one side, as a figure of a bucket.
pub open spec fn figure_of(side: Side) -> spec_fn(DeltaBucket) -> int {
    match side {
        Side::Buy => buyers(),
        Side::Sell => sellers(),
    }
}

/// A window that has counted nothing.
pub open spec fn empty_window(window_ns: u64) -> DeltaModel {
    DeltaModel {
        window_ns,
        bucket_size_ns: if window_ns / 300 >= 1 {
            window_ns / 300
        } else {
            1
        },
        buckets: Seq::empty(),
        open: None,
    }
}

/// The window after a run of trades.
pub open spec fn after_trades(m: DeltaModel, trades: Seq<Trade>) -> DeltaModel
    decreases trades.len(),
{
    if trades.len() == 0 {
        m
    } else {
        let t = trades.last();
        after_trades(m, trades.drop_last()).after_record(t.at_ns, t.buyer_volume, t.seller_volume)
    }
}

/// The volume of one side that was counted at `from` or later.
pub open spec fn traded_since(trades: Seq<Trade>, from: int, side: Side) -> int
    decreases trades.len(),
{
    if trades.len() == 0 {
        0
    } else {
        traded_since(trades.drop_last(), from, side) + if trades.last().at_ns >= from {
            trades.last().volume(side)
        } else {
            0
        }
    }
}

/// Whether time never runs back over the trades.
pub open spec fn in_time_order(trades: Seq<Trade>) -> bool {
    forall|i: int, j: int|
        0 <= i <= j < trades.len() ==> (#[trigger] trades[i]).at_ns <= (#[trigger] trades[j]).at_ns
}

/// Whether buckets start on multiples of their size, each at least one size
/// after the one before.
spec fn spaced(buckets: Seq<DeltaBucket>, size: int) -> bool {
    &&& forall|i: int|
        0 <= i < buckets.len() ==> (#[trigger] buckets[i]).bucket_start_ns as int % size == 0
    &&& forall|i: int, j: int|
        0 <= i <= j < buckets.len() ==> (#[trigger] buckets[i]).bucket_start_ns + (j - i) * size
            <= (#[trigger] buckets[j]).bucket_start_ns
}

/// Over a run of trades in time order, the window counts everything of the last
/// window length but for at most one bucket, and nothing older. The buckets have to
/// cover the window: its length is a multiple of their number, or exceeds one by less
/// than a bucket.
pub proof fn law_window_counts_recent_volume(
    window_ns: u64,
    trades: Seq<Trade>,
    now_ns: u64,
    side: Side,
)
    requires
        window_ns % 300 < window_ns / 300,
        in_time_order(trades),
        forall|i: int| 0 <= i < trades.len() ==> (#[trigger] trades[i]).at_ns <= now_ns,
        traded_since(trades, 0, side) <= u64::MAX,
    ensures
        traded_since(trades, now_ns - window_ns + window_ns / 300, side) <= cap_u64(
            after_trades(empty_window(window_ns), trades).in_window(now_ns, figure_of(side)),
        ) <= traded_since(trades, now_ns - window_ns, side),
{
    let m = after_trades(empty_window(window_ns), trades);
    let from = now_ns - window_ns;
    let cutoff = m.cutoff(now_ns);
    let figure = figure_of(side);
    lemma_run(window_ns, trades, side);
    if trades.len() > 0 {
        assert(trades.last().at_ns <= now_ns);
    }
    assert(sum_since(m.all(), cutoff, figure) == sum_since(m.all(), from, figure)) by {
        lemma_nothing_before_zero(m.all(), from, figure);
    }
    lemma_traded_bounds(trades, from, side);
    lemma_sum_nonnegative(m.all(), from, side);
    assert(sum_since(m.all(), from, figure) <= traded_since(trades, from, side));
}

/// What holds of the window after every run.
proof fn lemma_run(window_ns: u64, trades: Seq<Trade>, side: Side)
    requires
        window_ns % 300 < window_ns / 300,
        in_time_order(trades),
        traded_since(trades, 0, side) <= u64::MAX,
    ensures
        ({
            let m = after_trades(empty_window(window_ns), trades);
            let size = window_ns / 300;
            &&& m.window_ns == window_ns && m.bucket_size_ns == size
            &&& m.buckets.len() <= 300
            &&& spaced(m.all(), size as int)
            &&& m.open is Some <==> trades.len() > 0
            &&& m.open is None ==> m.buckets.len() == 0
            &&& m.open matches Some(b) ==> b.bucket_start_ns <= trades.last().at_ns
            &&& forall|c: int|
                #![trigger sum_since(m.all(), c, figure_of(side))]
                sum_since(m.all(), c, figure_of(side)) <= traded_since(trades, c, side)
            &&& forall|c: int|
                #![trigger sum_since(m.all(), c, figure_of(side))]
                (m.open matches Some(b) ==> c >= b.bucket_start_ns - window_ns) ==> traded_since(
                    trades,
                    c + size,
                    side,
                ) <= sum_since(m.all(), c, figure_of(side))
        }),
    decreases trades.len(),
{
    let size = window_ns / 300;
    let figure = figure_of(side);
    if trades.len() == 0 {
        let m = empty_window(window_ns);
        assert(m.all() =~= Seq::empty());
    } else {
        let before = trades.drop_last();
        let t = trades.last();
        assert forall|i: int, j: int| 0 <= i <= j < before.len() implies (
        #[trigger] before[i]).at_ns <= (#[trigger] before[j]).at_ns by {
            assert(before[i] == trades[i] && before[j] == trades[j]);
        }
        lemma_run(window_ns, before, side);
        let o = after_trades(empty_window(window_ns), before);
        let m = o.after_record(t.at_ns, t.buyer_volume, t.seller_volume);
        let start = o.bucket_of(t.at_ns);
        lemma_bucket_start(t.at_ns as int, size as int);
        assert(m == after_trades(empty_window(window_ns), trades));
        let fresh = DeltaBucket {
            bucket_start_ns: start as u64,
            buyer_volume: t.buyer_volume,
            seller_volume: t.seller_volume,
        };
        assert(figure(fresh) == t.volume(side));
        match o.open {
            None => {
                assert(o.all() =~= Seq::empty());
                assert(m.all() =~= seq![fresh]);
                assert forall|i: int, j: int| 0 <= i <= j < m.all().len() implies (
                #[trigger] m.all()[i]).bucket_start_ns + (j - i) * size <= (
                #[trigger] m.all()[j]).bucket_start_ns by {
                    assert((j - i) * size == 0) by (nonlinear_arith)
                        requires
                            i == j,
                    ;
                }
                assert(m.all().drop_last() =~= Seq::empty());
                assert forall|c: int|
                    #![trigger sum_since(m.all(), c, figure)]
                    sum_since(m.all(), c, figure) == (if start >= c {
                        t.volume(side)
                    } else {
                        0
                    }) by {
                    assert(sum_since(m.all().drop_last(), c, figure) == 0);
                }
                assert(before.len() == 0);
                assert forall|c: int| #[trigger] traded_since(trades, c, side) == (if t.at_ns
                    >= c {
                    t.volume(side)
                } else {
                    0
                }) by {
                    assert(traded_since(before, c, side) == 0);
                }
            },
            Some(b) => {
                assert(before.last() == trades[trades.len() - 2]);
                assert(b.bucket_start_ns <= t.at_ns);
                assert(o.all().last() == b);
                assert(o.all()[o.all().len() - 1] == b);
                assert(b.bucket_start_ns <= start) by {
                    lemma_multiple_below(b.bucket_start_ns as int, t.at_ns as int, size as int);
                }
                if b.bucket_start_ns == start {
                    assert(before.push(t) =~= trades);
                    assert(sum_since(o.all(), 0, figure) <= traded_since(before, 0, side));
                    lemma_join(o, t, side, before);
                    let joined = m.open->0;
                    assert(figure(joined) == figure(b) + t.volume(side));
                    assert(m.all() =~= o.all().drop_last().push(joined));
                    assert(m.all().drop_last() =~= o.all().drop_last());
                    assert forall|c: int|
                        #![trigger sum_since(m.all(), c, figure)]
                        sum_since(m.all(), c, figure) == sum_since(o.all(), c, figure) + (if start
                            >= c {
                            t.volume(side)
                        } else {
                            0
                        }) by {
                    }
                    assert forall|i: int| 0 <= i < m.all().len() implies (
                    #[trigger] m.all()[i]).bucket_start_ns == o.all()[i].bucket_start_ns by {
                    }
                    assert(spaced(m.all(), size as int));
                } else {
                    lemma_next_bucket(o, t, side);
                    assert forall|c: int|
                        #![trigger sum_since(m.all(), c, figure)]
                        sum_since(m.all(), c, figure) <= traded_since(trades, c, side) by {
                        assert(sum_since(o.all(), c, figure) <= traded_since(before, c, side));
                    }
                    assert forall|c: int|
                        #![trigger sum_since(m.all(), c, figure)]
                        c >= start - window_ns implies traded_since(trades, c + size, side)
                        <= sum_since(m.all(), c, figure) by {
                        assert(traded_since(before, c + size, side) <= sum_since(
                            o.all(),
                            c,
                            figure,
                        ));
                    }
                }
            },
        }
    }
}

/// A trade in the open bucket does not overflow its volume.
proof fn lemma_join(o: DeltaModel, t: Trade, side: Side, before: Seq<Trade>)
    requires
        o.open is Some,
        traded_since(before.push(t), 0, side) <= u64::MAX,
        sum_since(o.all(), 0, figure_of(side)) <= traded_since(before, 0, side),
    ensures
        figure_of(side)(o.open->0) + t.volume(side) <= u64::MAX,
{
    let figure = figure_of(side);
    let b = o.open->0;
    assert(before.push(t).drop_last() =~= before);
    assert(o.all().drop_last() =~= o.buckets);
    lemma_sum_nonnegative(o.buckets, 0, side);
    assert(sum_since(o.all(), 0, figure) == sum_since(o.buckets, 0, figure) + figure(b));
}

/// A trade in a later bucket closes the open one. The oldest bucket may leave,
/// which is by then more than a window old.
proof fn lemma_next_bucket(o: DeltaModel, t: Trade, side: Side)
    requires
        o.bucket_size_ns > 0,
        o.window_ns < 301 * o.bucket_size_ns,
        o.buckets.len() <= 300,
        spaced(o.all(), o.bucket_size_ns as int),
        o.open matches Some(b) && b.bucket_start_ns < o.bucket_of(t.at_ns) <= t.at_ns,
        o.bucket_of(t.at_ns) % (o.bucket_size_ns as int) == 0,
    ensures
        ({
            let m = o.after_record(t.at_ns, t.buyer_volume, t.seller_volume);
            let start = o.bucket_of(t.at_ns);
            let figure = figure_of(side);
            let added = |c: int|
                if start >= c {
                    t.volume(side)
                } else {
                    0
                };
            &&& m.buckets.len() <= 300
            &&& m.open matches Some(b) && b.bucket_start_ns == start
            &&& spaced(m.all(), o.bucket_size_ns as int)
            &&& forall|c: int|
                #![trigger sum_since(m.all(), c, figure)]
                sum_since(m.all(), c, figure) <= sum_since(o.all(), c, figure) + added(c)
            &&& forall|c: int|
                #![trigger sum_since(m.all(), c, figure)]
                c >= start - o.window_ns ==> sum_since(m.all(), c, figure) == sum_since(
                    o.all(),
                    c,
                    figure,
                ) + added(c)
        }),
{
    let m = o.after_record(t.at_ns, t.buyer_volume, t.seller_volume);
    let size = o.bucket_size_ns as int;
    let start = o.bucket_of(t.at_ns);
    let figure = figure_of(side);
    let b = o.open->0;
    let fresh = m.open->0;
    let all = o.all();
    let n = all.len() as int;
    assert(all =~= o.buckets.push(b));
    assert(all[n - 1] == b);
    lemma_multiple_gap(b.bucket_start_ns as int, start, size);
    let grown = all.push(fresh);
    assert(grown.drop_last() =~= all);
    assert(spaced(grown, size)) by {
        assert forall|i: int, j: int| 0 <= i <= j < grown.len() implies (
        #[trigger] grown[i]).bucket_start_ns + (j - i) * size <= (
        #[trigger] grown[j]).bucket_start_ns by {
            if j < n {
                assert(grown[i] == all[i] && grown[j] == all[j]);
            } else if i < n {
                assert(grown[i] == all[i]);
                assert(all[i].bucket_start_ns + (n - 1 - i) * size <= all[n - 1].bucket_start_ns);
                assert((n - 1 - i) * size + size == (j - i) * size) by (nonlinear_arith)
                    requires
                        j == n,
                ;
            } else {
                assert((j - i) * size == 0) by (nonlinear_arith)
                    requires
                        i == j,
                ;
            }
        }
    }
    if n <= 300 {
        assert(m.all() =~= grown);
    } else {
        assert(m.buckets =~= all.skip(1));
        assert(m.all() =~= grown.skip(1));
        assert(spaced(m.all(), size)) by {
            assert forall|i: int, j: int| 0 <= i <= j < m.all().len() implies (
            #[trigger] m.all()[i]).bucket_start_ns + (j - i) * size <= (
            #[trigger] m.all()[j]).bucket_start_ns by {
                assert(m.all()[i] == grown[i + 1] && m.all()[j] == grown[j + 1]);
                assert(((j + 1) - (i + 1)) * size == (j - i) * size);
            }
            assert forall|i: int| 0 <= i < m.all().len() implies (
            #[trigger] m.all()[i]).bucket_start_ns as int % size == 0 by {
                assert(m.all()[i] == grown[i + 1]);
            }
        }
        assert(grown[0].bucket_start_ns + 301 * size <= grown[301].bucket_start_ns);
        assert forall|c: int|
            #![trigger sum_since(m.all(), c, figure)]
            sum_since(m.all(), c, figure) == sum_since(grown, c, figure)
                - if grown[0].bucket_start_ns >= c {
                figure(grown[0])
            } else {
                0
            } by {
            lemma_without_oldest(grown, c, figure);
        }
    }
}

/// The sum without the first bucket.
proof fn lemma_without_oldest(
    buckets: Seq<DeltaBucket>,
    c: int,
    figure: spec_fn(DeltaBucket) -> int,
)
    requires
        buckets.len() > 0,
    ensures
        sum_since(buckets, c, figure) == sum_since(buckets.skip(1), c, figure)
            + if buckets[0].bucket_start_ns >= c {
            figure(buckets[0])
        } else {
            0
        },
    decreases buckets.len(),
{
    if buckets.len() == 1 {
        assert(buckets.skip(1) =~= Seq::empty());
        assert(buckets.drop_last() =~= Seq::empty());
    } else {
        lemma_without_oldest(buckets.drop_last(), c, figure);
        assert(buckets.skip(1).drop_last() =~= buckets.drop_last().skip(1));
        assert(buckets.skip(1).last() == buckets.last());
    }
}

/// No bucket starts before zero.
proof fn lemma_nothing_before_zero(
    buckets: Seq<DeltaBucket>,
    from: int,
    figure: spec_fn(DeltaBucket) -> int,
)
    ensures
        from <= 0 ==> sum_since(buckets, from, figure) == sum_since(buckets, 0, figure),
    decreases buckets.len(),
{
    if buckets.len() > 0 {
        lemma_nothing_before_zero(buckets.drop_last(), from, figure);
    }
}

proof fn lemma_sum_nonnegative(buckets: Seq<DeltaBucket>, c: int, side: Side)
    ensures
        sum_since(buckets, c, figure_of(side)) >= 0,
    decreases buckets.len(),
{
    if buckets.len() > 0 {
        lemma_sum_nonnegative(buckets.drop_last(), c, side);
    }
}

proof fn lemma_traded_bounds(trades: Seq<Trade>, from: int, side: Side)
    ensures
        0 <= traded_since(trades, from, side) <= traded_since(trades, 0, side),
    decreases trades.len(),
{
    if trades.len() > 0 {
        lemma_traded_bounds(trades.drop_last(), from, side);
    }
}

/// The start of a bucket is a multiple of its size and less than a size back.
proof fn lemma_bucket_start(at: int, size: int)
    requires
        at >= 0,
        size > 0,
    ensures
        ((at / size) * size) % size == 0,
        at - size < (at / size) * size <= at,
        (at / size) * size >= 0,
{
    assert(((at / size) * size) % size == 0 && at - size < (at / size) * size <= at && (at / size)
        * size >= 0) by (nonlinear_arith)
        requires
            at >= 0,
            size > 0,
    ;
}

/// A multiple up to a time is at most the start of that time's bucket.
proof fn lemma_multiple_below(x: int, at: int, size: int)
    requires
        0 <= x <= at,
        size > 0,
        x % size == 0,
    ensures
        x <= (at / size) * size,
{
    assert(x <= (at / size) * size) by (nonlinear_arith)
        requires
            0 <= x <= at,
            size > 0,
            x % size == 0,
    ;
}

/// Two different multiples are at least one size apart.
proof fn lemma_multiple_gap(x: int, y: int, size: int)
    requires
        0 <= x < y,
        size > 0,
        x % size == 0,
        y % size == 0,
    ensures
        x + size <= y,
{
    assert(x + size <= y) by (nonlinear_arith)
        requires
            0 <= x < y,
            size > 0,
            x % size == 0,
            y % size == 0,
    ;
}

} // verus!
