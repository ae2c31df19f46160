//! Figures of one symbol: imbalance, depth pressure and the volume that
//! aggressive buyers and sellers traded lately.
use crate::base::arith::{cap_u64, clamp_i64, clamp_to_i64};
use crate::base::bounded::{latest, BoundedEvents, RingWindow};
use crate::base::schema::BookLevel;
use crate::base::types::SymbolId;
use crate::orderflow::book::{top_qty, BookModel, LiveBook};
use crate::orderflow::events::{OrderflowEvent, Ratio};
use vstd::prelude::*;

verus! {

/// How many levels of a side count toward the depth pressure.
pub const LIQUIDITY_PRESSURE_DEPTH: usize = 5;

/// Length of the volume window where none is given: thirty seconds.
pub const DEFAULT_ROLLING_DELTA_WINDOW_NS: u64 = 30_000_000_000;

/// How many closed buckets the volume window keeps.
pub const ROLLING_DELTA_BUCKETS: usize = 300;

/// Volumes that started trades within one slice of time.
#[derive(Clone, Copy, Debug, PartialEq, Eq, Structural)]
pub struct DeltaBucket {
    pub bucket_start_ns: u64,
    pub buyer_volume: u64,
    pub seller_volume: u64,
}

/// What a rolling delta holds.
pub struct DeltaModel {
    pub window_ns: u64,
    pub bucket_size_ns: u64,
    /// Closed buckets, oldest first.
    pub buckets: Seq<DeltaBucket>,
    /// The bucket that still takes volume.
    pub open: Option<DeltaBucket>,
}

/// The volume of buyers.
pub open spec fn buyers() -> spec_fn(DeltaBucket) -> int {
    |b: DeltaBucket| b.buyer_volume as int
}

/// The volume of sellers.
pub open spec fn sellers() -> spec_fn(DeltaBucket) -> int {
    |b: DeltaBucket| b.seller_volume as int
}

/// The sum of a figure over the buckets that start at or after `cutoff`.
pub open spec fn sum_since(
    buckets: Seq<DeltaBucket>,
    cutoff: int,
    figure: spec_fn(DeltaBucket) -> int,
) -> int
    decreases buckets.len(),
{
    if buckets.len() == 0 {
        0
    } else {
        sum_since(buckets.drop_last(), cutoff, figure) + if buckets.last().bucket_start_ns
            >= cutoff {
            figure(buckets.last())
        } else {
            0
        }
    }
}

impl DeltaModel {
    /// All buckets, the open one last.
    pub open spec fn all(self) -> Seq<DeltaBucket> {
        match self.open {
            Some(b) => self.buckets.push(b),
            None => self.buckets,
        }
    }

    /// The earliest time that counts at `now_ns`.
    pub open spec fn cutoff(self, now_ns: u64) -> int {
        if now_ns >= self.window_ns {
            now_ns - self.window_ns
        } else {
            0
        }
    }

    /// The sum of a figure over the window at `now_ns`.
    pub open spec fn in_window(self, now_ns: u64, figure: spec_fn(DeltaBucket) -> int) -> int {
        sum_since(self.all(), self.cutoff(now_ns), figure)
    }

    /// The start of the bucket that a time falls into.
    pub open spec fn bucket_of(self, now_ns: u64) -> int {
        (now_ns / self.bucket_size_ns) * self.bucket_size_ns
    }

    /// The model after a trade: it joins the open bucket, or closes it and opens
    /// the next.
    pub open spec fn after_record(
        self,
        now_ns: u64,
        buyer_volume: u64,
        seller_volume: u64,
    ) -> DeltaModel {
        let start = self.bucket_of(now_ns) as u64;
        let fresh = DeltaBucket { bucket_start_ns: start, buyer_volume, seller_volume };
        match self.open {
            None => DeltaModel { open: Some(fresh), ..self },
            Some(b) => if b.bucket_start_ns == start {
                DeltaModel {
                    open: Some(
                        DeltaBucket {
                            buyer_volume: cap_u64(b.buyer_volume + buyer_volume) as u64,
                            seller_volume: cap_u64(b.seller_volume + seller_volume) as u64,
                            ..b
                        },
                    ),
                    ..self
                }
            } else {
                DeltaModel {
                    buckets: latest(self.buckets.push(b), ROLLING_DELTA_BUCKETS as nat),
                    open: Some(fresh),
                    ..self
                }
            },
        }
    }
}

/// A window over the volumes that aggressive buyers and sellers traded.
#[derive(Debug)]
pub struct RollingDelta {
    window_ns: u64,
    bucket_size_ns: u64,
    buckets: RingWindow<DeltaBucket, 300>,
    open: Option<DeltaBucket>,
}

impl View for RollingDelta {
    type V = DeltaModel;

    closed spec fn view(&self) -> DeltaModel {
        DeltaModel {
            window_ns: self.window_ns,
            bucket_size_ns: self.bucket_size_ns,
            buckets: self.buckets@,
            open: self.open,
        }
    }
}

impl RollingDelta {
    pub closed spec fn wf(self) -> bool {
        self.buckets.wf() && self.bucket_size_ns > 0
    }

    /// A window of the given length, in equal buckets of at least a nanosecond.
    pub fn with_window(window_ns: u64) -> (d: RollingDelta)
        ensures
            d.wf(),
            d@ == (DeltaModel {
                window_ns,
                bucket_size_ns: if window_ns / 300 >= 1 {
                    window_ns / 300
                } else {
                    1
                },
                buckets: Seq::empty(),
                open: None,
            }),
    {
        let size: u64 = window_ns / (ROLLING_DELTA_BUCKETS as u64);
        RollingDelta {
            window_ns,
            bucket_size_ns: if size >= 1 {
                size
            } else {
                1
            },
            buckets: RingWindow::new(),
            open: None,
        }
    }

    /// Count a trade.
    pub fn record(&mut self, now_ns: u64, buyer_volume: u64, seller_volume: u64)
        requires
            old(self).wf(),
        ensures
            final(self).wf(),
            final(self)@ == old(self)@.after_record(now_ns, buyer_volume, seller_volume),
    {
        let size: u64 = self.bucket_size_ns;
        assert((now_ns / size) * size <= now_ns) by (nonlinear_arith)
            requires
                size > 0,
        ;
        assert((now_ns / size) * size >= 0) by (nonlinear_arith)
            requires
                size > 0,
        ;
        let start: u64 = (now_ns / size) * size;
        let fresh = DeltaBucket { bucket_start_ns: start, buyer_volume, seller_volume };
        match self.open {
            None => {
                self.open = Some(fresh);
            },
            Some(b) => {
                if b.bucket_start_ns == start {
                    self.open = Some(
                        DeltaBucket {
                            bucket_start_ns: start,
                            buyer_volume: b.buyer_volume.saturating_add(buyer_volume),
                            seller_volume: b.seller_volume.saturating_add(seller_volume),
                        },
                    );
                } else {
                    self.buckets.push(b);
                    self.open = Some(fresh);
                }
            },
        }
    }

    /// Volume of aggressive buyers in the window.
    pub fn buyer_volume(&self, now_ns: u64) -> (volume: u64)
        requires
            self.wf(),
        ensures
            volume == cap_u64(self@.in_window(now_ns, buyers())),
    {
        let cutoff: u64 = now_ns.saturating_sub(self.window_ns);
        let n: usize = self.buckets.len();
        let mut total: u128 = 0;
        let mut i: usize = 0;
        while i < n
            invariant
                i <= n,
                n == self.buckets@.len(),
                n <= 300,
                total == sum_since(self.buckets@.take(i as int), cutoff as int, buyers()),
                total <= i * u64::MAX,
            decreases n - i,
        {
            let b: &DeltaBucket = self.buckets.get(i);
            proof {
                lemma_sum_step(self.buckets@, i as int, cutoff as int, buyers());
            }
            if b.bucket_start_ns >= cutoff {
                total = total + b.buyer_volume as u128;
            }
            i = i + 1;
        }
        assert(self.buckets@.take(n as int) =~= self.buckets@);
        if let Some(b) = self.open {
            assert(self@.all().drop_last() =~= self.buckets@);
            if b.bucket_start_ns >= cutoff {
                total = total + b.buyer_volume as u128;
            }
        }
        if total > u64::MAX as u128 {
            u64::MAX
        } else {
            total as u64
        }
    }

    /// Volume of aggressive sellers in the window.
    pub fn seller_volume(&self, now_ns: u64) -> (volume: u64)
        requires
            self.wf(),
        ensures
            volume == cap_u64(self@.in_window(now_ns, sellers())),
    {
        let cutoff: u64 = now_ns.saturating_sub(self.window_ns);
        let n: usize = self.buckets.len();
        let mut total: u128 = 0;
        let mut i: usize = 0;
        while i < n
            invariant
                i <= n,
                n == self.buckets@.len(),
                n <= 300,
                total == sum_since(self.buckets@.take(i as int), cutoff as int, sellers()),
                total <= i * u64::MAX,
            decreases n - i,
        {
            let b: &DeltaBucket = self.buckets.get(i);
            proof {
                lemma_sum_step(self.buckets@, i as int, cutoff as int, sellers());
            }
            if b.bucket_start_ns >= cutoff {
                total = total + b.seller_volume as u128;
            }
            i = i + 1;
        }
        assert(self.buckets@.take(n as int) =~= self.buckets@);
        if let Some(b) = self.open {
            assert(self@.all().drop_last() =~= self.buckets@);
            if b.bucket_start_ns >= cutoff {
                total = total + b.seller_volume as u128;
            }
        }
        if total > u64::MAX as u128 {
            u64::MAX
        } else {
            total as u64
        }
    }

    /// Buyer volume less seller volume, held at the ends of the range.
    pub fn signed_delta(&self, now_ns: u64) -> (delta: i64)
        requires
            self.wf(),
        ensures
            delta == clamp_i64(
                cap_u64(self@.in_window(now_ns, buyers())) - cap_u64(
                    self@.in_window(now_ns, sellers()),
                ),
            ),
    {
        clamp_to_i64(self.buyer_volume(now_ns) as i128 - self.seller_volume(now_ns) as i128)
    }
}

impl Default for RollingDelta {
    fn default() -> (d: RollingDelta)
        ensures
            d.wf(),
            d@ == (DeltaModel {
                window_ns: DEFAULT_ROLLING_DELTA_WINDOW_NS,
                bucket_size_ns: 100_000_000,
                buckets: Seq::empty(),
                open: None,
            }),
    {
        RollingDelta::with_window(DEFAULT_ROLLING_DELTA_WINDOW_NS)
    }
}

proof fn lemma_sum_step(
    buckets: Seq<DeltaBucket>,
    i: int,
    cutoff: int,
    figure: spec_fn(DeltaBucket) -> int,
)
    requires
        0 <= i < buckets.len(),
    ensures
        sum_since(buckets.take(i + 1), cutoff, figure) == sum_since(
            buckets.take(i),
            cutoff,
            figure,
        ) + if buckets[i].bucket_start_ns >= cutoff {
            figure(buckets[i])
        } else {
            0
        },
{
    assert(buckets.take(i + 1).drop_last() =~= buckets.take(i));
}

/// A trade adds its volume to the window at its time, while no closed bucket is
/// pushed out and the open one has room.
pub proof fn law_recorded_volume_is_recovered(
    m: DeltaModel,
    now_ns: u64,
    buyer_volume: u64,
    seller_volume: u64,
)
    requires
        0 < m.bucket_size_ns <= m.window_ns,
        m.buckets.len() < ROLLING_DELTA_BUCKETS,
        m.open matches Some(b) ==> b.buyer_volume + buyer_volume <= u64::MAX && b.seller_volume
            + seller_volume <= u64::MAX,
    ensures
        m.after_record(now_ns, buyer_volume, seller_volume).in_window(now_ns, buyers())
            == m.in_window(now_ns, buyers()) + buyer_volume,
        m.after_record(now_ns, buyer_volume, seller_volume).in_window(now_ns, sellers())
            == m.in_window(now_ns, sellers()) + seller_volume,
{
    let size = m.bucket_size_ns as int;
    let now = now_ns as int;
    let start = m.bucket_of(now_ns);
    assert(start <= now < start + size) by (nonlinear_arith)
        requires
            size > 0,
            start == (now / size) * size,
    ;
    assert(start >= 0) by (nonlinear_arith)
        requires
            size > 0,
            now >= 0,
            start == (now / size) * size,
    ;
    let after = m.after_record(now_ns, buyer_volume, seller_volume);
    assert(after.all().drop_last() =~= after.buckets);
    match m.open {
        None => {},
        Some(b) => {
            assert(m.all().drop_last() =~= m.buckets);
            if b.bucket_start_ns != start as u64 {
                assert(after.buckets =~= m.all());
            }
        },
    }
}

/// Volume that was traded before the window no longer counts.
pub proof fn law_old_volume_is_dropped(
    m: DeltaModel,
    now_ns: u64,
    figure: spec_fn(DeltaBucket) -> int,
)
    requires
        forall|i: int|
            0 <= i < m.all().len() ==> (#[trigger] m.all()[i]).bucket_start_ns < m.cutoff(now_ns),
    ensures
        m.in_window(now_ns, figure) == 0,
{
    lemma_none_since(m.all(), m.cutoff(now_ns), figure);
}

proof fn lemma_none_since(
    buckets: Seq<DeltaBucket>,
    cutoff: int,
    figure: spec_fn(DeltaBucket) -> int,
)
    requires
        forall|i: int|
            0 <= i < buckets.len() ==> (#[trigger] buckets[i]).bucket_start_ns < cutoff,
    ensures
        sum_since(buckets, cutoff, figure) == 0,
    decreases buckets.len(),
{
    if buckets.len() > 0 {
        let rest = buckets.drop_last();
        assert forall|i: int| 0 <= i < rest.len() implies (#[trigger] rest[i]).bucket_start_ns
            < cutoff by {
            assert(rest[i] == buckets[i]);
        }
        lemma_none_since(rest, cutoff, figure);
    }
}

/// The figures of a symbol after a book or a tick.
#[derive(Debug)]
pub struct OrderflowSnapshot {
    pub symbol: SymbolId,
    /// Best bid less best ask size, over their sum.
    pub bid_ask_imbalance: Ratio,
    pub aggressive_buyer_volume: u64,
    pub aggressive_seller_volume: u64,
    pub rolling_delta: i64,
    /// Bid less ask size of the best five levels, over their sum.
    pub liquidity_pressure: Ratio,
    pub events: BoundedEvents<OrderflowEvent, 4>,
}

impl OrderflowSnapshot {
    /// A snapshot of nothing.
    pub fn empty(symbol: SymbolId) -> (s: OrderflowSnapshot)
        ensures
            s.symbol == symbol,
            s.bid_ask_imbalance == (Ratio { num: 0, den: 0 }),
            s.aggressive_buyer_volume == 0,
            s.aggressive_seller_volume == 0,
            s.rolling_delta == 0,
            s.liquidity_pressure == (Ratio { num: 0, den: 0 }),
            s.events.wf(),
            s.events@.len() == 0,
    {
        OrderflowSnapshot {
            symbol,
            bid_ask_imbalance: Ratio { num: 0, den: 0 },
            aggressive_buyer_volume: 0,
            aggressive_seller_volume: 0,
            rolling_delta: 0,
            liquidity_pressure: Ratio { num: 0, den: 0 },
            events: BoundedEvents::new(),
        }
    }
}

/// The difference of two sizes over their sum.
pub open spec fn balance(bid: int, ask: int) -> Ratio {
    Ratio { num: (bid - ask) as i128, den: (bid + ask) as u128 }
}

/// The sizes of the levels of a side up to the depth that counts.
pub open spec fn depth_qty(levels: Seq<BookLevel>) -> int {
    sum_qty(
        if levels.len() <= LIQUIDITY_PRESSURE_DEPTH {
            levels
        } else {
            levels.take(LIQUIDITY_PRESSURE_DEPTH as int)
        },
    )
}

/// The sum of sizes.
pub open spec fn sum_qty(levels: Seq<BookLevel>) -> int
    decreases levels.len(),
{
    if levels.len() == 0 {
        0
    } else {
        sum_qty(levels.drop_last()) + levels.last().qty
    }
}

/// Imbalance of the best quotes.
pub fn bid_ask_imbalance(book: &LiveBook) -> (ratio: Ratio)
    ensures
        ratio == balance(top_qty(book@.bids) as int, top_qty(book@.asks) as int),
{
    let bid: u64 = match book.top_bid() {
        Some(level) => level.qty,
        None => 0,
    };
    let ask: u64 = match book.top_ask() {
        Some(level) => level.qty,
        None => 0,
    };
    Ratio { num: bid as i128 - ask as i128, den: bid as u128 + ask as u128 }
}

/// Imbalance of the best five levels.
pub fn liquidity_pressure(book: &LiveBook) -> (ratio: Ratio)
    ensures
        ratio == balance(depth_qty(book@.bids), depth_qty(book@.asks)),
{
    let bid: u128 = depth_of(book.bid_levels());
    let ask: u128 = depth_of(book.ask_levels());
    Ratio { num: bid as i128 - ask as i128, den: bid + ask }
}

/// Sum the sizes up to the depth that counts.
fn depth_of(levels: &[BookLevel]) -> (total: u128)
    ensures
        total == depth_qty(levels@),
        total <= 5 * u64::MAX,
{
    let mut total: u128 = 0;
    let mut i: usize = 0;
    while i < levels.len() && i < LIQUIDITY_PRESSURE_DEPTH
        invariant
            i <= levels@.len(),
            i <= LIQUIDITY_PRESSURE_DEPTH,
            total == sum_qty(levels@.take(i as int)),
            total <= i * u64::MAX,
        decreases LIQUIDITY_PRESSURE_DEPTH - i,
    {
        assert(levels@.take(i + 1).drop_last() =~= levels@.take(i as int));
        total = total + levels[i].qty as u128;
        i = i + 1;
    }
    proof {
        if levels@.len() <= LIQUIDITY_PRESSURE_DEPTH {
            assert(levels@.take(i as int) =~= levels@);
        }
    }
    total
}

/// Both imbalances lie between minus one and one.
pub proof fn law_imbalances_are_bounded(book: BookModel)
    ensures
        -top_qty(book.bids) - top_qty(book.asks) <= balance(
            top_qty(book.bids) as int,
            top_qty(book.asks) as int,
        ).num <= top_qty(book.bids) + top_qty(book.asks),
        balance(top_qty(book.bids) as int, top_qty(book.asks) as int).den == top_qty(book.bids)
            + top_qty(book.asks),
        balance(depth_qty(book.bids), depth_qty(book.asks)).den == depth_qty(book.bids)
            + depth_qty(book.asks),
        -balance(depth_qty(book.bids), depth_qty(book.asks)).den <= balance(
            depth_qty(book.bids),
            depth_qty(book.asks),
        ).num <= balance(depth_qty(book.bids), depth_qty(book.asks)).den,
{
    lemma_depth_bounds(book.bids);
    lemma_depth_bounds(book.asks);
}

/// With sizes on one side only, the imbalance is plus or minus one; with none it
/// is zero.
pub proof fn law_one_sided_book_is_extreme(book: BookModel)
    ensures
        depth_qty(book.asks) == 0 ==> balance(depth_qty(book.bids), depth_qty(book.asks)).num
            == balance(depth_qty(book.bids), depth_qty(book.asks)).den,
        depth_qty(book.bids) == 0 ==> balance(depth_qty(book.bids), depth_qty(book.asks)).num
            == -balance(depth_qty(book.bids), depth_qty(book.asks)).den,
{
    lemma_depth_bounds(book.bids);
    lemma_depth_bounds(book.asks);
}

proof fn lemma_depth_bounds(levels: Seq<BookLevel>)
    ensures
        0 <= depth_qty(levels) <= 5 * u64::MAX,
{
    let kept = if levels.len() <= LIQUIDITY_PRESSURE_DEPTH {
        levels
    } else {
        levels.take(LIQUIDITY_PRESSURE_DEPTH as int)
    };
    lemma_sum_bounds(kept);
}

proof fn lemma_sum_bounds(levels: Seq<BookLevel>)
    ensures
        0 <= sum_qty(levels) <= levels.len() * u64::MAX,
    decreases levels.len(),
{
    if levels.len() > 0 {
        lemma_sum_bounds(levels.drop_last());
    }
}

} // verus!
