//! The four order-flow patterns and the detector that watches for them.
//!
//! * A liquidity gap: the best two levels of a side lie more than three ticks
//!   apart.
//! * Absorption, and with it hidden liquidity: a trade takes more from the level
//!   it hits than was shown there.
//! * Spoofing: a quote of more than five times the median size disappears within
//!   half a second with less than a quarter of it traded.
use crate::base::arith::{abs, cap_u64, clamp_i64, clamp_to_i64, saturating_mul_u64};
use crate::base::bounded::{capped, latest, lemma_capped_push, BoundedEvents, RingWindow};
use crate::base::schema::{BookLevel, Tick};
use crate::base::sort::{ascending, sort_ascending};
use crate::base::types::{Px, Side};
use crate::orderflow::book::{first, top_qty, BookModel, LiveBook};
use vstd::prelude::*;

verus! {

/// An exact fraction. One with denominator zero stands for zero.
#[derive(Clone, Copy, Debug, PartialEq, Eq, Structural)]
pub struct Ratio {
    pub num: i128,
    pub den: u128,
}

/// A pattern that was seen.
#[derive(Clone, Copy, Debug, PartialEq, Eq, Structural)]
pub enum OrderflowEvent {
    /// The level behind the best one is far away.
    LiquidityGap { side: Side, level: Px, size: u64 },
    /// A trade of `size` took more than was shown at `level`; `side` is the one
    /// that absorbed it.
    Absorption { side: Side, level: Px, size: u64 },
    /// More traded at `level` than was shown there.
    HiddenLiquidity { side: Side, level: Px },
    /// A large quote vanished; the evidence is the share of it that never traded.
    Spoofing { side: Side, level: Px, evidence_score: Ratio },
}

/// A gap counts from beyond this many ticks.
pub const LIQUIDITY_GAP_TICKS: i64 = 3;

/// Tick size where none is given, in paise.
pub const DEFAULT_TICK_SIZE_PAISE: i64 = 1;

/// A quote is watched when it exceeds this multiple of the median size.
pub const SPOOF_QTY_MULTIPLIER: u64 = 5;

/// How long a quote is watched.
pub const SPOOF_WINDOW_NS: u64 = 500_000_000;

/// How many best-quote sizes the median is taken over.
pub const SPOOF_MEDIAN_WINDOW: usize = 64;

/// How many quotes are watched at a time.
pub const SPOOF_PENDING_CAPACITY: usize = 32;

/// How many events one observation can report.
pub const MAX_EVENTS: usize = 4;

/// A large quote under watch.
#[derive(Clone, Copy, Debug, PartialEq, Eq, Structural)]
pub struct PendingOrder {
    pub side: Side,
    pub price_paise: i64,
    /// Size when it was first seen.
    pub qty: u64,
    pub placed_ts_ns: u64,
    /// What has traded at its price since.
    pub filled_qty: u64,
}

/// What a detector holds.
pub struct DetectorModel {
    pub tick_size_paise: i64,
    /// Sizes of the larger best quote, oldest first.
    pub history: Seq<u64>,
    /// Quotes under watch.
    pub pending: Seq<PendingOrder>,
    pub last_top_bid: Option<BookLevel>,
    pub last_top_ask: Option<BookLevel>,
}

/// Watches one symbol.
#[derive(Debug)]
pub struct Detector {
    tick_size_paise: i64,
    qty_history: RingWindow<u64, 64>,
    pending: Vec<PendingOrder>,
    last_top_bid: Option<BookLevel>,
    last_top_ask: Option<BookLevel>,
}

impl View for Detector {
    type V = DetectorModel;

    closed spec fn view(&self) -> DetectorModel {
        DetectorModel {
            tick_size_paise: self.tick_size_paise,
            history: self.qty_history@,
            pending: self.pending@,
            last_top_bid: self.last_top_bid,
            last_top_ask: self.last_top_ask,
        }
    }
}

/// Whether no two watched quotes stand on one side at one price.
pub open spec fn quotes_distinct(pending: Seq<PendingOrder>) -> bool {
    forall|i: int, j: int|
        0 <= i < j < pending.len() ==> (#[trigger] pending[i]).side != (
        #[trigger] pending[j]).side || pending[i].price_paise != pending[j].price_paise
}

/// Whether no watched quote has fully traded.
pub open spec fn quotes_open(pending: Seq<PendingOrder>) -> bool {
    forall|i: int|
        0 <= i < pending.len() ==> (#[trigger] pending[i]).filled_qty < pending[i].qty
}

impl DetectorModel {
    /// A detector that has seen nothing.
    pub open spec fn fresh(tick_size_paise: i64) -> DetectorModel {
        DetectorModel {
            tick_size_paise,
            history: Seq::empty(),
            pending: Seq::empty(),
            last_top_bid: None,
            last_top_ask: None,
        }
    }

    /// The bounds on what a detector keeps.
    pub open spec fn sound(self) -> bool {
        &&& self.tick_size_paise >= 1
        &&& self.history.len() <= SPOOF_MEDIAN_WINDOW
        &&& self.pending.len() <= SPOOF_PENDING_CAPACITY
        &&& quotes_distinct(self.pending)
        &&& quotes_open(self.pending)
    }

    /// The history after a book: the size of its larger best quote joins.
    pub open spec fn history_after(self, book: BookModel) -> Seq<u64> {
        let b = top_qty(book.bids);
        let a = top_qty(book.asks);
        latest(
            self.history.push(
                if b >= a {
                    b
                } else {
                    a
                },
            ),
            SPOOF_MEDIAN_WINDOW as nat,
        )
    }

    /// The events that a book gives rise to, in order, before the limit on
    /// their number.
    pub open spec fn book_events(self, book: BookModel, now_ns: u64) -> Seq<OrderflowEvent> {
        gap_events(Side::Buy, book.bids, self.tick_size_paise) + gap_events(
            Side::Sell,
            book.asks,
            self.tick_size_paise,
        ) + spoof_events(self.pending, book, now_ns)
    }

    /// The detector after a book.
    pub open spec fn after_book(self, book: BookModel, now_ns: u64) -> DetectorModel {
        let history = self.history_after(book);
        let median = median_of(history);
        let kept = self.pending.filter(|p: PendingOrder| lingers(p, book, now_ns));
        let with_bid = watch_top(kept, Side::Buy, first(book.bids), median, now_ns);
        let with_ask = watch_top(with_bid, Side::Sell, first(book.asks), median, now_ns);
        DetectorModel {
            history,
            pending: with_ask,
            last_top_bid: first(book.bids),
            last_top_ask: first(book.asks),
            ..self
        }
    }

    /// The detector after a trade: it counts against the quotes at its price, and
    /// those that have traded whole are forgotten.
    pub open spec fn after_trade(self, price_paise: i64, qty: u64) -> DetectorModel {
        if qty == 0 {
            self
        } else {
            DetectorModel {
                pending: self.pending.map_values(
                    |p: PendingOrder| with_trade(p, price_paise, qty),
                ).filter(|p: PendingOrder| p.filled_qty < p.qty),
                ..self
            }
        }
    }
}

/// The middle of a row of sizes: where their number is even, the mean of the
/// middle two, rounded down; zero where there are none.
pub open spec fn median_of(sizes: Seq<u64>) -> u64 {
    let s = ascending(sizes);
    let n = sizes.len() as int;
    if n == 0 {
        0
    } else if n % 2 == 0 {
        ((s[n / 2 - 1] + s[n / 2]) / 2) as u64
    } else {
        s[n / 2]
    }
}

/// Whether the best two levels lie too far apart.
pub open spec fn has_gap(levels: Seq<BookLevel>, tick_size_paise: i64) -> bool {
    levels.len() >= 2 && abs(levels[0].price_paise - levels[1].price_paise) > clamp_i64(
        LIQUIDITY_GAP_TICKS * tick_size_paise,
    )
}

/// The gap event of a side, where it has one.
pub open spec fn gap_events(
    side: Side,
    levels: Seq<BookLevel>,
    tick_size_paise: i64,
) -> Seq<OrderflowEvent> {
    if has_gap(levels, tick_size_paise) {
        seq![
            OrderflowEvent::LiquidityGap {
                side,
                level: Px(levels[0].price_paise),
                size: levels[0].qty,
            },
        ]
    } else {
        Seq::empty()
    }
}

/// How long a quote has been watched.
pub open spec fn age_of(p: PendingOrder, now_ns: u64) -> int {
    if now_ns >= p.placed_ts_ns {
        now_ns - p.placed_ts_ns
    } else {
        0
    }
}

/// Whether a quote still stands at the top of its side with at least half its
/// size.
pub open spec fn still_present(p: PendingOrder, book: BookModel) -> bool {
    let top = match p.side {
        Side::Buy => first(book.bids),
        Side::Sell => first(book.asks),
    };
    match top {
        Some(level) => level.price_paise == p.price_paise && level.qty >= p.qty / 2,
        None => false,
    }
}

/// Whether a quote vanished in time with less than a quarter of it traded.
pub open spec fn spoofs(p: PendingOrder, book: BookModel, now_ns: u64) -> bool {
    !still_present(p, book) && age_of(p, now_ns) <= SPOOF_WINDOW_NS && p.filled_qty < p.qty / 4
}

/// Whether a quote stays under watch.
pub open spec fn lingers(p: PendingOrder, book: BookModel, now_ns: u64) -> bool {
    !spoofs(p, book, now_ns) && age_of(p, now_ns) <= SPOOF_WINDOW_NS
}

/// The event of a quote that vanished.
pub open spec fn spoof_event(p: PendingOrder) -> OrderflowEvent {
    OrderflowEvent::Spoofing {
        side: p.side,
        level: Px(p.price_paise),
        evidence_score: Ratio {
            num: (if p.qty >= p.filled_qty {
                p.qty - p.filled_qty
            } else {
                0
            }) as i128,
            den: (if p.qty >= 1 {
                p.qty as int
            } else {
                1
            }) as u128,
        },
    }
}

/// The events of all watched quotes that vanished.
pub open spec fn spoof_events(
    pending: Seq<PendingOrder>,
    book: BookModel,
    now_ns: u64,
) -> Seq<OrderflowEvent> {
    pending.filter(|p: PendingOrder| spoofs(p, book, now_ns)).map_values(
        |p: PendingOrder| spoof_event(p),
    )
}

/// Whether a quote on this side at this price is under watch.
pub open spec fn watched(pending: Seq<PendingOrder>, side: Side, price_paise: i64) -> bool {
    exists|i: int|
        0 <= i < pending.len() && (#[trigger] pending[i]).side == side && pending[i].price_paise
            == price_paise
}

/// Whether the quote at `i` is the first of those watched longest.
pub open spec fn is_oldest(pending: Seq<PendingOrder>, i: int) -> bool {
    &&& 0 <= i < pending.len()
    &&& forall|j: int|
        0 <= j < pending.len() ==> pending[i].placed_ts_ns <= (#[trigger] pending[j]).placed_ts_ns
    &&& forall|j: int|
        0 <= j < i ==> pending[i].placed_ts_ns < (#[trigger] pending[j]).placed_ts_ns
}

/// The place of the first of the quotes watched longest.
pub open spec fn oldest_index(pending: Seq<PendingOrder>) -> int {
    choose|i: int| is_oldest(pending, i)
}

/// The watch list with a quote added. One that is on it already is not added
/// again; on a full list the new quote takes the place of the oldest.
pub open spec fn watch(pending: Seq<PendingOrder>, entry: PendingOrder) -> Seq<PendingOrder> {
    if watched(pending, entry.side, entry.price_paise) {
        pending
    } else if pending.len() < SPOOF_PENDING_CAPACITY {
        pending.push(entry)
    } else {
        pending.update(oldest_index(pending), entry)
    }
}

/// The watch list after a best quote was looked at.
pub open spec fn watch_top(
    pending: Seq<PendingOrder>,
    side: Side,
    top: Option<BookLevel>,
    median: u64,
    now_ns: u64,
) -> Seq<PendingOrder> {
    match top {
        Some(level) => if median > 0 && level.qty > cap_u64(median * SPOOF_QTY_MULTIPLIER) {
            watch(
                pending,
                PendingOrder {
                    side,
                    price_paise: level.price_paise,
                    qty: level.qty,
                    placed_ts_ns: now_ns,
                    filled_qty: 0,
                },
            )
        } else {
            pending
        },
        None => pending,
    }
}

/// Whether a trade is at the best ask or above.
pub open spec fn lifts_ask(price_paise: i64, book: BookModel) -> bool {
    first(book.asks) matches Some(ask) && price_paise >= ask.price_paise
}

/// Whether a trade is at the best bid or below.
pub open spec fn hits_bid(price_paise: i64, book: BookModel) -> bool {
    first(book.bids) matches Some(bid) && price_paise <= bid.price_paise
}

/// The side that started a trade: a buyer when it is at the best ask or above,
/// else a seller when it is at the best bid or below.
pub open spec fn aggressor(price_paise: i64, book: BookModel) -> Option<Side> {
    if lifts_ask(price_paise, book) {
        Some(Side::Buy)
    } else if hits_bid(price_paise, book) {
        Some(Side::Sell)
    } else {
        None
    }
}

/// The best level that a trade by the given side hits.
pub open spec fn level_hit(side: Side, book: BookModel) -> Option<BookLevel> {
    match side {
        Side::Buy => first(book.asks),
        Side::Sell => first(book.bids),
    }
}

/// The events that a trade gives rise to, in order.
pub open spec fn trade_events(price_paise: i64, qty: u64, book: BookModel) -> Seq<OrderflowEvent> {
    match aggressor(price_paise, book) {
        Some(side) => match level_hit(side, book) {
            Some(level) => if qty > level.qty {
                seq![
                    OrderflowEvent::Absorption {
                        side: side.flipped(),
                        level: Px(level.price_paise),
                        size: qty,
                    },
                    OrderflowEvent::HiddenLiquidity {
                        side: side.flipped(),
                        level: Px(level.price_paise),
                    },
                ]
            } else {
                Seq::empty()
            },
            None => Seq::empty(),
        },
        None => Seq::empty(),
    }
}

/// A watched quote after a trade.
pub open spec fn with_trade(p: PendingOrder, price_paise: i64, qty: u64) -> PendingOrder {
    if p.price_paise == price_paise {
        PendingOrder { filled_qty: cap_u64(p.filled_qty + qty) as u64, ..p }
    } else {
        p
    }
}

/// Keep what passes a test: how `filter` grows by one item.
proof fn lemma_filter_step<T>(items: Seq<T>, i: int, keep: spec_fn(T) -> bool)
    requires
        0 <= i < items.len(),
    ensures
        items.take(i + 1).filter(keep) == if keep(items[i]) {
            items.take(i).filter(keep).push(items[i])
        } else {
            items.take(i).filter(keep)
        },
        items.take(0).filter(keep).len() == 0,
{
    reveal(Seq::filter);
    assert(items.take(i + 1).drop_last() =~= items.take(i));
}

/// What passes a test is a selection of the items, in order.
proof fn lemma_filter_selects(pending: Seq<PendingOrder>, keep: spec_fn(PendingOrder) -> bool)
    ensures
        pending.filter(keep).len() <= pending.len(),
        quotes_distinct(pending) ==> quotes_distinct(pending.filter(keep)),
        quotes_open(pending) ==> quotes_open(pending.filter(keep)),
        forall|i: int|
            0 <= i < pending.filter(keep).len() ==> pending.contains(
                #[trigger] pending.filter(keep)[i],
            ),
    decreases pending.len(),
{
    reveal(Seq::filter);
    if pending.len() > 0 {
        let rest = pending.drop_last();
        lemma_filter_selects(rest, keep);
        let kept = rest.filter(keep);
        let all = pending.filter(keep);
        assert forall|i: int| 0 <= i < all.len() implies pending.contains(#[trigger] all[i]) by {
            if i < kept.len() {
                assert(rest.contains(kept[i]));
                let k = choose|k: int| 0 <= k < rest.len() && rest[k] == kept[i];
                assert(pending[k] == all[i]);
            } else {
                assert(pending[pending.len() - 1] == all[i]);
            }
        }
        if quotes_distinct(pending) {
            assert(quotes_distinct(rest)) by {
                assert forall|i: int, j: int| 0 <= i < j < rest.len() implies (
                #[trigger] rest[i]).side != (#[trigger] rest[j]).side || rest[i].price_paise
                    != rest[j].price_paise by {
                    assert(pending[i] == rest[i] && pending[j] == rest[j]);
                }
            }
            assert forall|i: int, j: int| 0 <= i < j < all.len() implies (
            #[trigger] all[i]).side != (#[trigger] all[j]).side || all[i].price_paise
                != all[j].price_paise by {
                if j < kept.len() {
                    assert(kept[i] == all[i] && kept[j] == all[j]);
                } else {
                    assert(rest.contains(kept[i]));
                    let k = choose|k: int| 0 <= k < rest.len() && rest[k] == kept[i];
                    assert(pending[k] == all[i]);
                    assert(pending[pending.len() - 1] == all[j]);
                }
            }
        }
        if quotes_open(pending) {
            assert forall|i: int| 0 <= i < all.len() implies (#[trigger] all[i]).filled_qty
                < all[i].qty by {
                assert(pending.contains(all[i]));
            }
        }
    }
}

/// There is exactly one place of the oldest quote.
proof fn lemma_oldest_is_unique(pending: Seq<PendingOrder>, i: int)
    requires
        is_oldest(pending, i),
    ensures
        oldest_index(pending) == i,
{
    let k = oldest_index(pending);
    assert(is_oldest(pending, k));
    if k < i {
        assert(pending[i].placed_ts_ns < pending[k].placed_ts_ns);
    } else if i < k {
        assert(pending[k].placed_ts_ns < pending[i].placed_ts_ns);
    }
}

/// Adding a quote keeps the watch list within its bounds.
proof fn lemma_watch_is_sound(pending: Seq<PendingOrder>, entry: PendingOrder, oldest: int)
    requires
        pending.len() <= SPOOF_PENDING_CAPACITY,
        quotes_distinct(pending),
        quotes_open(pending),
        entry.filled_qty < entry.qty,
        pending.len() == SPOOF_PENDING_CAPACITY ==> is_oldest(pending, oldest),
    ensures
        watch(pending, entry).len() <= SPOOF_PENDING_CAPACITY,
        quotes_distinct(watch(pending, entry)),
        quotes_open(watch(pending, entry)),
{
    if pending.len() == SPOOF_PENDING_CAPACITY {
        lemma_oldest_is_unique(pending, oldest);
    }
}

impl Detector {
    /// Within bounds, with the window of the right size.
    pub closed spec fn wf(self) -> bool {
        self@.sound() && self.qty_history.wf()
    }

    /// A detector with the default tick size.
    pub fn new() -> (d: Detector)
        ensures
            d.wf(),
            d@ == DetectorModel::fresh(DEFAULT_TICK_SIZE_PAISE),
    {
        Self::with_tick_size(DEFAULT_TICK_SIZE_PAISE)
    }

    /// A detector with a tick size, at least one paisa.
    pub fn with_tick_size(tick_size_paise: i64) -> (d: Detector)
        ensures
            d.wf(),
            d@ == DetectorModel::fresh(
                if tick_size_paise >= 1 {
                    tick_size_paise
                } else {
                    1
                },
            ),
    {
        Detector {
            tick_size_paise: if tick_size_paise >= 1 {
                tick_size_paise
            } else {
                1
            },
            qty_history: RingWindow::new(),
            pending: Vec::new(),
            last_top_bid: None,
            last_top_ask: None,
        }
    }

    pub fn tick_size_paise(&self) -> (paise: i64)
        ensures
            paise == self@.tick_size_paise,
    {
        self.tick_size_paise
    }

    /// Number of quotes under watch.
    pub fn pending_len(&self) -> (n: usize)
        ensures
            n == self@.pending.len(),
    {
        self.pending.len()
    }

    /// The median of the size history.
    fn rolling_median_qty(&self) -> (median: u64)
        requires
            self.wf(),
        ensures
            median == median_of(self@.history),
    {
        let n: usize = self.qty_history.len();
        if n == 0 {
            return 0;
        }
        let mut sizes: Vec<u64> = Vec::new();
        let mut i: usize = 0;
        while i < n
            invariant
                i <= n,
                n == self.qty_history@.len(),
                sizes@ == self.qty_history@.take(i as int),
            decreases n - i,
        {
            sizes.push(*self.qty_history.get(i));
            i = i + 1;
            assert(self.qty_history@.take(i as int) =~= self.qty_history@.take(i - 1).push(
                self.qty_history@[i - 1],
            ));
        }
        assert(sizes@ =~= self@.history);
        let sorted = sort_ascending(sizes.as_slice());
        if n % 2 == 0 {
            ((sorted[n / 2 - 1] as u128 + sorted[n / 2] as u128) / 2) as u64
        } else {
            sorted[n / 2]
        }
    }

    /// Look at a book after an update. Returns how many events were added to
    /// `out`, which takes no more than it has room for.
    pub fn observe_book(
        &mut self,
        book: &LiveBook,
        now_ns: u64,
        out: &mut BoundedEvents<OrderflowEvent, 4>,
    ) -> (emitted: usize)
        requires
            old(self).wf(),
            old(out).wf(),
        ensures
            final(self).wf(),
            final(self)@ == old(self)@.after_book(book@, now_ns),
            final(out).wf(),
            final(out)@ == capped(
                old(out)@ + old(self)@.book_events(book@, now_ns),
                MAX_EVENTS as nat,
            ),
            emitted == final(out)@.len() - old(out)@.len(),
    {
        let ghost start = out@;
        let ghost bid_gap = gap_events(Side::Buy, book@.bids, self.tick_size_paise);
        let ghost ask_gap = gap_events(Side::Sell, book@.asks, self.tick_size_paise);
        let held: usize = out.len();
        assert(start =~= capped(start + Seq::<OrderflowEvent>::empty(), MAX_EVENTS as nat));
        match detect_liquidity_gap(Side::Buy, book.bid_levels(), self.tick_size_paise) {
            Some(gap) => {
                proof {
                    lemma_capped_push(start, Seq::<OrderflowEvent>::empty(), gap, 4);
                    assert(Seq::<OrderflowEvent>::empty().push(gap) =~= bid_gap);
                }
                let _ = out.try_push(gap);
            },
            None => {},
        }
        assert(out@ == capped(start + bid_gap, MAX_EVENTS as nat));
        match detect_liquidity_gap(Side::Sell, book.ask_levels(), self.tick_size_paise) {
            Some(gap) => {
                proof {
                    lemma_capped_push(start, bid_gap, gap, 4);
                    assert(bid_gap.push(gap) =~= bid_gap + ask_gap);
                }
                let _ = out.try_push(gap);
            },
            None => {
                assert(bid_gap + ask_gap =~= bid_gap);
            },
        }
        assert(out@ == capped(start + (bid_gap + ask_gap), MAX_EVENTS as nat));
        let ghost gaps = bid_gap + ask_gap;
        let ghost before = self@;
        self.advance_spoofing(book, now_ns, out, Ghost(start), Ghost(gaps));
        assert(start + (gaps + spoof_events(before.pending, book@, now_ns)) =~= start
            + before.book_events(book@, now_ns));
        let top_bid = book.top_bid();
        let top_ask = book.top_ask();
        let bid_qty: u64 = match top_bid {
            Some(level) => level.qty,
            None => 0,
        };
        let ask_qty: u64 = match top_ask {
            Some(level) => level.qty,
            None => 0,
        };
        self.qty_history.push(
            if bid_qty >= ask_qty {
                bid_qty
            } else {
                ask_qty
            },
        );
        let median: u64 = self.rolling_median_qty();
        self.consider(Side::Buy, top_bid, median, now_ns);
        self.consider(Side::Sell, top_ask, median, now_ns);
        self.last_top_bid = top_bid;
        self.last_top_ask = top_ask;
        out.len() - held
    }

    /// Look at a trade. Returns how many events were added to `out`, which takes
    /// no more than it has room for.
    pub fn observe_trade(
        &mut self,
        tick: &Tick,
        book: &LiveBook,
        out: &mut BoundedEvents<OrderflowEvent, 4>,
    ) -> (emitted: usize)
        requires
            old(self).wf(),
            old(out).wf(),
        ensures
            final(self).wf(),
            final(self)@ == old(self)@.after_trade(tick.ltp_paise, tick.ltq),
            final(out).wf(),
            final(out)@ == capped(
                old(out)@ + (if tick.ltq == 0 {
                    Seq::empty()
                } else {
                    trade_events(tick.ltp_paise, tick.ltq, book@)
                }),
                MAX_EVENTS as nat,
            ),
            emitted == final(out)@.len() - old(out)@.len(),
    {
        let ghost start = out@;
        assert(start =~= capped(start + Seq::<OrderflowEvent>::empty(), MAX_EVENTS as nat));
        let trade_px: i64 = tick.ltp_paise;
        let trade_qty: u64 = tick.ltq;
        if trade_qty == 0 {
            return 0;
        }
        let held: usize = out.len();
        let lifts: bool = match book.top_ask() {
            Some(ask) => trade_px >= ask.price_paise,
            None => false,
        };
        let hits: bool = match book.top_bid() {
            Some(bid) => trade_px <= bid.price_paise,
            None => false,
        };
        let aggressor_side: Option<Side> = if lifts {
            Some(Side::Buy)
        } else if hits {
            Some(Side::Sell)
        } else {
            None
        };
        if let Some(side) = aggressor_side {
            let hit: Option<BookLevel> = match side {
                Side::Buy => book.top_ask(),
                Side::Sell => book.top_bid(),
            };
            if let Some(level) = hit {
                if trade_qty > level.qty {
                    let absorbed = OrderflowEvent::Absorption {
                        side: side.opposite(),
                        level: Px(level.price_paise),
                        size: trade_qty,
                    };
                    let hidden = OrderflowEvent::HiddenLiquidity {
                        side: side.opposite(),
                        level: Px(level.price_paise),
                    };
                    proof {
                        let none = Seq::<OrderflowEvent>::empty();
                        lemma_capped_push(start, none, absorbed, 4);
                        lemma_capped_push(start, none.push(absorbed), hidden, 4);
                        assert(none.push(absorbed).push(hidden) =~= trade_events(
                            trade_px,
                            trade_qty,
                            book@,
                        ));
                    }
                    let _ = out.try_push(absorbed);
                    let _ = out.try_push(hidden);
                }
            }
        }
        self.settle_trade(trade_px, trade_qty);
        out.len() - held
    }

    /// Count a trade against the quotes at its price and forget those that have
    /// traded whole.
    fn settle_trade(&mut self, price_paise: i64, qty: u64)
        requires
            old(self).wf(),
            qty > 0,
        ensures
            final(self).wf(),
            final(self)@ == old(self)@.after_trade(price_paise, qty),
    {
        let ghost traded = self.pending@.map_values(
            |p: PendingOrder| with_trade(p, price_paise, qty),
        );
        let ghost open = |p: PendingOrder| p.filled_qty < p.qty;
        let mut kept: Vec<PendingOrder> = Vec::new();
        let mut i: usize = 0;
        proof {
            reveal(Seq::filter);
            assert(traded.take(0).filter(open) =~= kept@);
        }
        while i < self.pending.len()
            invariant
                i <= self.pending@.len(),
                traded == self.pending@.map_values(
                    |p: PendingOrder| with_trade(p, price_paise, qty),
                ),
                open == (|p: PendingOrder| p.filled_qty < p.qty),
                kept@ == traded.take(i as int).filter(open),
            decreases self.pending@.len() - i,
        {
            let mut p: PendingOrder = self.pending[i];
            if p.price_paise == price_paise {
                p.filled_qty = p.filled_qty.saturating_add(qty);
            }
            proof {
                assert(traded[i as int] == p);
                lemma_filter_step(traded, i as int, open);
            }
            if p.filled_qty < p.qty {
                kept.push(p);
            }
            i = i + 1;
        }
        proof {
            assert(traded.take(traded.len() as int) =~= traded);
            assert(quotes_distinct(traded)) by {
                assert forall|a: int, b: int| 0 <= a < b < traded.len() implies (
                #[trigger] traded[a]).side != (#[trigger] traded[b]).side
                    || traded[a].price_paise != traded[b].price_paise by {
                    assert(self.pending@[a].side != self.pending@[b].side
                        || self.pending@[a].price_paise != self.pending@[b].price_paise);
                }
            }
            lemma_filter_selects(traded, open);
            broadcast use vstd::seq_lib::group_filter_ensures;
            assert(quotes_open(kept@));
        }
        self.pending = kept;
    }

    /// Report the watched quotes that vanished and keep watching those that may
    /// still.
    fn advance_spoofing(
        &mut self,
        book: &LiveBook,
        now_ns: u64,
        out: &mut BoundedEvents<OrderflowEvent, 4>,
        start: Ghost<Seq<OrderflowEvent>>,
        earlier: Ghost<Seq<OrderflowEvent>>,
    )
        requires
            old(self).wf(),
            old(out).wf(),
            old(out)@ == capped(start@ + earlier@, MAX_EVENTS as nat),
        ensures
            final(self).wf(),
            final(self)@ == (DetectorModel {
                pending: old(self)@.pending.filter(|p: PendingOrder| lingers(p, book@, now_ns)),
                ..old(self)@
            }),
            final(out).wf(),
            final(out)@ == capped(
                start@ + (earlier@ + spoof_events(old(self)@.pending, book@, now_ns)),
                MAX_EVENTS as nat,
            ),
    {
        let ghost all = self.pending@;
        let ghost stay = |p: PendingOrder| lingers(p, book@, now_ns);
        let ghost vanish = |p: PendingOrder| spoofs(p, book@, now_ns);
        let ghost shown = |p: PendingOrder| spoof_event(p);
        let top_bid = book.top_bid();
        let top_ask = book.top_ask();
        let mut kept: Vec<PendingOrder> = Vec::new();
        let mut i: usize = 0;
        proof {
            reveal(Seq::filter);
            assert(all.take(0).filter(stay) =~= kept@);
            assert(earlier@ + all.take(0).filter(vanish).map_values(shown) =~= earlier@);
        }
        while i < self.pending.len()
            invariant
                i <= all.len(),
                all == self.pending@,
                out.wf(),
                stay == (|p: PendingOrder| lingers(p, book@, now_ns)),
                vanish == (|p: PendingOrder| spoofs(p, book@, now_ns)),
                shown == (|p: PendingOrder| spoof_event(p)),
                top_bid == first(book@.bids),
                top_ask == first(book@.asks),
                kept@ == all.take(i as int).filter(stay),
                out@ == capped(
                    start@ + (earlier@ + all.take(i as int).filter(vanish).map_values(shown)),
                    MAX_EVENTS as nat,
                ),
            decreases all.len() - i,
        {
            let p: PendingOrder = self.pending[i];
            let age: u64 = now_ns.saturating_sub(p.placed_ts_ns);
            let top: Option<BookLevel> = match p.side {
                Side::Buy => top_bid,
                Side::Sell => top_ask,
            };
            let present = match top {
                Some(level) => level.price_paise == p.price_paise && level.qty >= p.qty / 2,
                None => false,
            };
            proof {
                lemma_filter_step(all, i as int, stay);
                lemma_filter_step(all, i as int, vanish);
            }
            if !present && age <= SPOOF_WINDOW_NS && p.filled_qty < p.qty / 4 {
                let event = OrderflowEvent::Spoofing {
                    side: p.side,
                    level: Px(p.price_paise),
                    evidence_score: Ratio {
                        num: p.qty.saturating_sub(p.filled_qty) as i128,
                        den: if p.qty >= 1 {
                            p.qty as u128
                        } else {
                            1
                        },
                    },
                };
                proof {
                    let so_far = all.take(i as int).filter(vanish);
                    lemma_capped_push(start@, earlier@ + so_far.map_values(shown), event, 4);
                    assert((earlier@ + so_far.map_values(shown)).push(event) =~= earlier@
                        + so_far.push(p).map_values(shown));
                }
                let _ = out.try_push(event);
            } else if age <= SPOOF_WINDOW_NS {
                kept.push(p);
            }
            i = i + 1;
        }
        proof {
            assert(all.take(all.len() as int) =~= all);
            lemma_filter_selects(all, stay);
        }
        self.pending = kept;
    }

    /// Put a best quote under watch where it is large enough.
    fn consider(&mut self, side: Side, top: Option<BookLevel>, median: u64, now_ns: u64)
        requires
            old(self).wf(),
        ensures
            final(self).wf(),
            final(self)@ == (DetectorModel {
                pending: watch_top(old(self)@.pending, side, top, median, now_ns),
                ..old(self)@
            }),
    {
        if median > 0 {
            let threshold: u64 = saturating_mul_u64(median, SPOOF_QTY_MULTIPLIER);
            if let Some(level) = top {
                if level.qty > threshold {
                    self.try_register_pending(side, &level, now_ns);
                }
            }
        }
    }

    /// Put a quote under watch.
    fn try_register_pending(&mut self, side: Side, top: &BookLevel, now_ns: u64)
        requires
            old(self).wf(),
            top.qty > 0,
        ensures
            final(self).wf(),
            final(self)@ == (DetectorModel {
                pending: watch(
                    old(self)@.pending,
                    PendingOrder {
                        side,
                        price_paise: top.price_paise,
                        qty: top.qty,
                        placed_ts_ns: now_ns,
                        filled_qty: 0,
                    },
                ),
                ..old(self)@
            }),
    {
        let ghost all = self.pending@;
        let mut i: usize = 0;
        while i < self.pending.len()
            invariant
                i <= all.len(),
                all == self.pending@,
                self.wf(),
                self@ == old(self)@,
                forall|j: int|
                    0 <= j < i ==> (#[trigger] all[j]).side != side || all[j].price_paise
                        != top.price_paise,
            decreases all.len() - i,
        {
            let p: PendingOrder = self.pending[i];
            if p.side == side && p.price_paise == top.price_paise {
                assert(watched(all, side, top.price_paise));
                return;
            }
            i = i + 1;
        }
        let entry = PendingOrder {
            side,
            price_paise: top.price_paise,
            qty: top.qty,
            placed_ts_ns: now_ns,
            filled_qty: 0,
        };
        if self.pending.len() < SPOOF_PENDING_CAPACITY {
            proof {
                lemma_watch_is_sound(all, entry, 0);
            }
            self.pending.push(entry);
        } else {
            let mut oldest: usize = 0;
            let mut j: usize = 1;
            while j < self.pending.len()
                invariant
                    1 <= j <= all.len(),
                    all == self.pending@,
                    oldest < j,
                    forall|m: int|
                        0 <= m < j ==> all[oldest as int].placed_ts_ns <= (
                        #[trigger] all[m]).placed_ts_ns,
                    forall|m: int|
                        0 <= m < oldest ==> all[oldest as int].placed_ts_ns < (
                        #[trigger] all[m]).placed_ts_ns,
                decreases all.len() - j,
            {
                if self.pending[j].placed_ts_ns < self.pending[oldest].placed_ts_ns {
                    oldest = j;
                }
                j = j + 1;
            }
            proof {
                assert(is_oldest(all, oldest as int));
                lemma_oldest_is_unique(all, oldest as int);
                lemma_watch_is_sound(all, entry, oldest as int);
            }
            self.pending.set(oldest, entry);
        }
    }
}

impl Default for Detector {
    fn default() -> (d: Detector)
        ensures
            d.wf(),
            d@ == DetectorModel::fresh(DEFAULT_TICK_SIZE_PAISE),
    {
        Detector::new()
    }
}

/// The gap event of a side, where the best two levels lie more than three ticks
/// apart.
pub fn detect_liquidity_gap(side: Side, levels: &[BookLevel], tick_size_paise: i64) -> (event:
    Option<OrderflowEvent>)
    ensures
        gap_events(side, levels@, tick_size_paise) == match event {
            Some(e) => seq![e],
            None => Seq::empty(),
        },
{
    if levels.len() < 2 {
        return None;
    }
    let top: BookLevel = levels[0];
    let next: BookLevel = levels[1];
    let diff: i128 = top.price_paise as i128 - next.price_paise as i128;
    let gap: i128 = if diff < 0 {
        -diff
    } else {
        diff
    };
    let threshold: i64 = clamp_to_i64(LIQUIDITY_GAP_TICKS as i128 * tick_size_paise as i128);
    if gap > threshold as i128 {
        Some(
            OrderflowEvent::LiquidityGap {
                side,
                level: Px(top.price_paise),
                size: top.qty,
            },
        )
    } else {
        None
    }
}

/// A list that is not empty has an oldest quote.
pub proof fn lemma_some_quote_is_oldest(pending: Seq<PendingOrder>)
    requires
        pending.len() > 0,
    ensures
        is_oldest(pending, oldest_index(pending)),
    decreases pending.len(),
{
    let last = pending.len() - 1;
    if last == 0 {
        assert(is_oldest(pending, 0));
    } else {
        let rest = pending.drop_last();
        lemma_some_quote_is_oldest(rest);
        let k = oldest_index(rest);
        assert forall|j: int| 0 <= j < rest.len() implies rest[j] == pending[j] by {}
        if pending[last].placed_ts_ns < rest[k].placed_ts_ns {
            assert forall|j: int| 0 <= j < last implies pending[last].placed_ts_ns < (
            #[trigger] pending[j]).placed_ts_ns by {
                assert(rest[k].placed_ts_ns <= rest[j].placed_ts_ns);
            }
            assert(is_oldest(pending, last));
        } else {
            assert forall|j: int| 0 <= j < pending.len() implies pending[k].placed_ts_ns <= (
            #[trigger] pending[j]).placed_ts_ns by {
                if j < last {
                    assert(rest[k].placed_ts_ns <= rest[j].placed_ts_ns);
                }
            }
            assert forall|j: int| 0 <= j < k implies pending[k].placed_ts_ns < (
            #[trigger] pending[j]).placed_ts_ns by {
                assert(rest[k].placed_ts_ns < rest[j].placed_ts_ns);
            }
            assert(is_oldest(pending, k));
        }
    }
}

/// Whatever a detector sees, it keeps within its bounds: a window of sizes, a
/// limited watch list, no quote on it twice and none that has traded whole.
pub proof fn law_detector_stays_sound(
    m: DetectorModel,
    book: BookModel,
    now_ns: u64,
    price_paise: i64,
    qty: u64,
)
    requires
        m.sound(),
    ensures
        m.after_book(book, now_ns).sound(),
        m.after_trade(price_paise, qty).sound(),
{
    let stay = |p: PendingOrder| lingers(p, book, now_ns);
    lemma_filter_selects(m.pending, stay);
    let kept = m.pending.filter(stay);
    let median = median_of(m.history_after(book));
    lemma_watch_top_is_sound(kept, Side::Buy, first(book.bids), median, now_ns);
    let with_bid = watch_top(kept, Side::Buy, first(book.bids), median, now_ns);
    lemma_watch_top_is_sound(with_bid, Side::Sell, first(book.asks), median, now_ns);
    if qty > 0 {
        let open = |p: PendingOrder| p.filled_qty < p.qty;
        let traded = m.pending.map_values(|p: PendingOrder| with_trade(p, price_paise, qty));
        assert(quotes_distinct(traded)) by {
            assert forall|a: int, b: int| 0 <= a < b < traded.len() implies (
            #[trigger] traded[a]).side != (#[trigger] traded[b]).side || traded[a].price_paise
                != traded[b].price_paise by {
                assert(m.pending[a].side != m.pending[b].side || m.pending[a].price_paise
                    != m.pending[b].price_paise);
            }
        }
        lemma_filter_selects(traded, open);
        broadcast use vstd::seq_lib::group_filter_ensures;

        assert(quotes_open(traded.filter(open)));
    }
}

proof fn lemma_watch_top_is_sound(
    pending: Seq<PendingOrder>,
    side: Side,
    top: Option<BookLevel>,
    median: u64,
    now_ns: u64,
)
    requires
        pending.len() <= SPOOF_PENDING_CAPACITY,
        quotes_distinct(pending),
        quotes_open(pending),
    ensures
        watch_top(pending, side, top, median, now_ns).len() <= SPOOF_PENDING_CAPACITY,
        quotes_distinct(watch_top(pending, side, top, median, now_ns)),
        quotes_open(watch_top(pending, side, top, median, now_ns)),
{
    if let Some(level) = top {
        if median > 0 && level.qty > cap_u64(median * SPOOF_QTY_MULTIPLIER) {
            if pending.len() > 0 {
                lemma_some_quote_is_oldest(pending);
            }
            let entry = PendingOrder {
                side,
                price_paise: level.price_paise,
                qty: level.qty,
                placed_ts_ns: now_ns,
                filled_qty: 0,
            };
            lemma_watch_is_sound(pending, entry, oldest_index(pending));
        }
    }
}

/// The evidence of a vanished quote is a share: more than three quarters of it
/// and at most all.
pub proof fn law_spoof_evidence_is_a_share(p: PendingOrder, book: BookModel, now_ns: u64)
    requires
        spoofs(p, book, now_ns),
    ensures
        spoof_event(p) matches OrderflowEvent::Spoofing { evidence_score, .. } && 4
            * evidence_score.num > 3 * evidence_score.den && evidence_score.num
            <= evidence_score.den,
{
}

/// A quote that still stands, or has been watched past the window, is never
/// reported.
pub proof fn law_standing_quotes_are_not_spoofs(p: PendingOrder, book: BookModel, now_ns: u64)
    requires
        still_present(p, book) || age_of(p, now_ns) > SPOOF_WINDOW_NS,
    ensures
        !spoofs(p, book, now_ns),
{
}

/// Absorption and hidden liquidity are reported together, and only for a trade
/// larger than the level it hit.
pub proof fn law_absorption_needs_excess(price_paise: i64, qty: u64, book: BookModel)
    ensures
        trade_events(price_paise, qty, book).len() == 0 || trade_events(
            price_paise,
            qty,
            book,
        ).len() == 2,
        trade_events(price_paise, qty, book).len() == 2 <==> (aggressor(
            price_paise,
            book,
        ) matches Some(side) && level_hit(side, book) matches Some(level) && qty > level.qty),
{
}

} // verus!
