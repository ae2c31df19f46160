//! What the detector reports, in terms of the books and trades that it sees.
use crate::base::schema::BookLevel;
use crate::base::sort::{ascending, not_above};
use crate::base::types::{Px, Side};
use crate::orderflow::book::{first, BookModel};
use crate::orderflow::events::{
    lingers, median_of, oldest_index, spoof_event, spoofs, trade_events, watch_top, watched,
    with_trade, DetectorModel, OrderflowEvent, PendingOrder, Ratio,
};
use vstd::prelude::*;

verus! {

/// The best level of the side on which a quote stands is at its price with at least
/// half its size.
pub open spec fn stands_on(levels: Seq<BookLevel>, p: PendingOrder) -> bool {
    levels.len() > 0 && levels[0].price_paise == p.price_paise && levels[0].qty >= p.qty / 2
}

/// Whether an event reports a vanished quote on a side at a price.
pub open spec fn reports_spoof(event: OrderflowEvent, side: Side, price_paise: i64) -> bool {
    event matches OrderflowEvent::Spoofing { side: s, level, .. } && s == side && level.0
        == price_paise
}

/// A watched ask that still stands at the top of the asks with at least half its size
/// is not reported, and stays under watch for half a second. A full watch list may
/// drop it for a newer quote.
pub proof fn law_standing_ask_is_not_reported(
    m: DetectorModel,
    book: BookModel,
    now_ns: u64,
    i: int,
)
    requires
        m.sound(),
        0 <= i < m.pending.len(),
        m.pending[i].side is Sell,
        book.asks.len() > 0,
        book.asks[0].price_paise == m.pending[i].price_paise,
        book.asks[0].qty >= m.pending[i].qty / 2,
    ensures
        forall|k: int|
            0 <= k < m.book_events(book, now_ns).len() ==> !reports_spoof(
                #[trigger] m.book_events(book, now_ns)[k],
                Side::Sell,
                m.pending[i].price_paise,
            ),
        m.pending.len() <= 30 && now_ns - m.pending[i].placed_ts_ns <= 500_000_000 ==> m.after_book(
            book,
            now_ns,
        ).pending.contains(m.pending[i]),
{
    lemma_standing(m, book, now_ns, i);
}

/// A watched bid that still stands at the top of the bids with at least half its size
/// is not reported, and stays under watch for half a second. A full watch list may
/// drop it for a newer quote.
pub proof fn law_standing_bid_is_not_reported(
    m: DetectorModel,
    book: BookModel,
    now_ns: u64,
    i: int,
)
    requires
        m.sound(),
        0 <= i < m.pending.len(),
        m.pending[i].side is Buy,
        book.bids.len() > 0,
        book.bids[0].price_paise == m.pending[i].price_paise,
        book.bids[0].qty >= m.pending[i].qty / 2,
    ensures
        forall|k: int|
            0 <= k < m.book_events(book, now_ns).len() ==> !reports_spoof(
                #[trigger] m.book_events(book, now_ns)[k],
                Side::Buy,
                m.pending[i].price_paise,
            ),
        m.pending.len() <= 30 && now_ns - m.pending[i].placed_ts_ns <= 500_000_000 ==> m.after_book(
            book,
            now_ns,
        ).pending.contains(m.pending[i]),
{
    lemma_standing(m, book, now_ns, i);
}

proof fn lemma_standing(m: DetectorModel, book: BookModel, now_ns: u64, i: int)
    requires
        m.sound(),
        0 <= i < m.pending.len(),
        stands_on(
            if m.pending[i].side is Buy {
                book.bids
            } else {
                book.asks
            },
            m.pending[i],
        ),
    ensures
        forall|k: int|
            0 <= k < m.book_events(book, now_ns).len() ==> !reports_spoof(
                #[trigger] m.book_events(book, now_ns)[k],
                m.pending[i].side,
                m.pending[i].price_paise,
            ),
        m.pending.len() <= 30 && now_ns - m.pending[i].placed_ts_ns <= 500_000_000 ==> m.after_book(
            book,
            now_ns,
        ).pending.contains(m.pending[i]),
{
    let p = m.pending[i];
    let gone = |q: PendingOrder| spoofs(q, book, now_ns);
    let stay = |q: PendingOrder| lingers(q, book, now_ns);
    assert(!spoofs(p, book, now_ns));
    assert forall|k: int| 0 <= k < m.book_events(book, now_ns).len() implies !reports_spoof(
        #[trigger] m.book_events(book, now_ns)[k],
        p.side,
        p.price_paise,
    ) by {
        let e = m.book_events(book, now_ns)[k];
        if reports_spoof(e, p.side, p.price_paise) {
            lemma_event_is_of_its_quote(m, book, now_ns, k);
            let j = choose|j: int|
                0 <= j < m.pending.len() && spoofs(m.pending[j], book, now_ns) && e == spoof_event(
                    #[trigger] m.pending[j],
                );
            if j < i {
                assert(m.pending[j].side != m.pending[i].side || m.pending[j].price_paise
                    != m.pending[i].price_paise);
            } else if i < j {
                assert(m.pending[i].side != m.pending[j].side || m.pending[i].price_paise
                    != m.pending[j].price_paise);
            }
        }
    }
    if m.pending.len() <= 30 && now_ns - p.placed_ts_ns <= 500_000_000 {
        m.pending.lemma_filter_contains(stay, i);
        m.pending.lemma_filter_len(stay);
        let kept = m.pending.filter(stay);
        let median = median_of(m.history_after(book));
        lemma_watch_keeps(kept, Side::Buy, first(book.bids), median, now_ns, p);
        let with_bid = watch_top(kept, Side::Buy, first(book.bids), median, now_ns);
        lemma_watch_keeps(with_bid, Side::Sell, first(book.asks), median, now_ns, p);
    }
}

/// While there is room, looking at a best quote forgets no other.
proof fn lemma_watch_keeps(
    pending: Seq<PendingOrder>,
    side: Side,
    top: Option<BookLevel>,
    median: u64,
    now_ns: u64,
    p: PendingOrder,
)
    requires
        pending.len() < 32,
        pending.contains(p),
    ensures
        watch_top(pending, side, top, median, now_ns).contains(p),
        watch_top(pending, side, top, median, now_ns).len() <= pending.len() + 1,
{
    let after = watch_top(pending, side, top, median, now_ns);
    let k = choose|k: int| 0 <= k < pending.len() && pending[k] == p;
    assert(after[k] == p);
}

/// A spoofing event of a book is that of a watched quote.
proof fn lemma_event_is_of_its_quote(m: DetectorModel, book: BookModel, now_ns: u64, k: int)
    requires
        0 <= k < m.book_events(book, now_ns).len(),
        m.book_events(book, now_ns)[k] is Spoofing,
    ensures
        exists|j: int|
            0 <= j < m.pending.len() && spoofs(m.pending[j], book, now_ns) && m.book_events(
                book,
                now_ns,
            )[k] == spoof_event(#[trigger] m.pending[j]),
{
    let gone = |q: PendingOrder| spoofs(q, book, now_ns);
    let vanished = m.pending.filter(gone);
    let e = m.book_events(book, now_ns)[k];
    let spoofed = vanished.map_values(|p: PendingOrder| spoof_event(p));
    let gaps = m.book_events(book, now_ns).len() - spoofed.len();
    assert(k >= gaps);
    let v = k - gaps;
    assert(e == spoof_event(vanished[v]));
    m.pending.lemma_filter_pred(gone, v);
    assert(vanished.contains(vanished[v]));
    m.pending.lemma_filter_contains_rev(gone, vanished[v]);
    let j = choose|j: int| 0 <= j < m.pending.len() && m.pending[j] == vanished[v];
    assert(e == spoof_event(m.pending[j]));
}

/// A quote that left the top of its side, or lost more than half its size, within
/// half a second and with less than a quarter of it traded, is reported: on its side,
/// at its price, with the share of it that never traded.
pub proof fn law_vanished_quote_is_reported(
    m: DetectorModel,
    book: BookModel,
    now_ns: u64,
    i: int,
)
    requires
        m.sound(),
        0 <= i < m.pending.len(),
        m.pending[i].side is Buy ==> !stands_on(book.bids, m.pending[i]),
        m.pending[i].side is Sell ==> !stands_on(book.asks, m.pending[i]),
        now_ns - m.pending[i].placed_ts_ns <= 500_000_000,
        m.pending[i].filled_qty < m.pending[i].qty / 4,
    ensures
        m.book_events(book, now_ns).contains(
            OrderflowEvent::Spoofing {
                side: m.pending[i].side,
                level: Px(m.pending[i].price_paise),
                evidence_score: Ratio {
                    num: (m.pending[i].qty - m.pending[i].filled_qty) as i128,
                    den: m.pending[i].qty as u128,
                },
            },
        ),
{
    let p = m.pending[i];
    let gone = |q: PendingOrder| spoofs(q, book, now_ns);
    assert(spoofs(p, book, now_ns));
    m.pending.lemma_filter_contains(gone, i);
    let vanished = m.pending.filter(gone);
    let v = choose|v: int| 0 <= v < vanished.len() && vanished[v] == p;
    let spoofed = vanished.map_values(|p: PendingOrder| spoof_event(p));
    assert(spoofed[v] == spoof_event(p));
    let events = m.book_events(book, now_ns);
    let k = events.len() - spoofed.len() + v;
    assert(events[k] == spoofed[v]);
}

/// Only a vanished quote is reported: one under watch for at most half a second, less
/// than a quarter traded, and no longer standing. Each report is of a watched quote.
pub proof fn law_reports_are_of_vanished_quotes(
    m: DetectorModel,
    book: BookModel,
    now_ns: u64,
    k: int,
)
    requires
        0 <= k < m.book_events(book, now_ns).len(),
        m.book_events(book, now_ns)[k] is Spoofing,
    ensures
        exists|j: int|
            0 <= j < m.pending.len() && reports_spoof(
                m.book_events(book, now_ns)[k],
                (#[trigger] m.pending[j]).side,
                m.pending[j].price_paise,
            ) && now_ns - m.pending[j].placed_ts_ns <= 500_000_000 && m.pending[j].filled_qty
                < m.pending[j].qty / 4 && !stands_on(
                if m.pending[j].side is Buy {
                    book.bids
                } else {
                    book.asks
                },
                m.pending[j],
            ),
{
    lemma_event_is_of_its_quote(m, book, now_ns, k);
    let e = m.book_events(book, now_ns)[k];
    let j = choose|j: int|
        0 <= j < m.pending.len() && spoofs(m.pending[j], book, now_ns) && e == spoof_event(
            #[trigger] m.pending[j],
        );
    let p = m.pending[j];
    assert(reports_spoof(e, p.side, p.price_paise));
}

/// Whether a row of sizes is another in ascending order.
pub open spec fn sorts(sorted: Seq<u64>, sizes: Seq<u64>) -> bool {
    &&& sorted.to_multiset() == sizes.to_multiset()
    &&& forall|a: int, b: int| 0 <= a <= b < sorted.len() ==> sorted[a] <= sorted[b]
}

/// The median is the middle of the sizes in order, or the mean of the middle two.
pub proof fn law_median_is_the_middle(sizes: Seq<u64>, sorted: Seq<u64>)
    requires
        sorts(sorted, sizes),
    ensures
        sizes.len() == 0 ==> median_of(sizes) == 0,
        sizes.len() % 2 == 1 ==> median_of(sizes) == sorted[(sizes.len() / 2) as int],
        sizes.len() % 2 == 0 && sizes.len() > 0 ==> {
            let low = sorted[sizes.len() / 2 - 1];
            let high = sorted[(sizes.len() / 2) as int];
            low + high - 1 <= 2 * median_of(sizes) <= low + high
        },
{
    sizes.lemma_sort_by_ensures(not_above());
    assert(vstd::relations::sorted_by(sorted, not_above()));
    vstd::seq_lib::lemma_sorted_unique(sorted, ascending(sizes), not_above());
    sizes.to_multiset_ensures();
    sorted.to_multiset_ensures();
}

/// The size that a book adds to the history is that of the larger of its two best
/// quotes; the history keeps the last sixty-four.
pub proof fn law_history_takes_the_larger_quote(m: DetectorModel, book: BookModel)
    requires
        m.history.len() <= 64,
    ensures
        ({
            let bid: int = if book.bids.len() > 0 {
                book.bids[0].qty as int
            } else {
                0
            };
            let ask: int = if book.asks.len() > 0 {
                book.asks[0].qty as int
            } else {
                0
            };
            let after = m.history_after(book);
            &&& after.len() == if m.history.len() < 64 {
                m.history.len() + 1
            } else {
                64
            }
            &&& after.last() >= bid && after.last() >= ask
            &&& after.last() == bid || after.last() == ask
            &&& after.drop_last() == m.history.skip(m.history.len() + 1 - after.len())
        }),
{
    let after = m.history_after(book);
    assert(after.drop_last() =~= m.history.skip(m.history.len() + 1 - after.len()));
}

/// Whether a best quote is more than five times a size, which is not zero.
pub open spec fn is_large(levels: Seq<BookLevel>, median: u64) -> bool {
    levels.len() > 0 && median > 0 && levels[0].qty > 5 * median
}

/// Whether a quote on a side at a price is on a list.
pub open spec fn on_list(list: Seq<PendingOrder>, side: Side, price_paise: i64) -> bool {
    exists|i: int|
        0 <= i < list.len() && (#[trigger] list[i]).side == side && list[i].price_paise
            == price_paise
}

/// A best quote of more than five times the median is under watch after the book.
pub proof fn law_large_quotes_are_watched(m: DetectorModel, book: BookModel, now_ns: u64)
    requires
        m.sound(),
    ensures
        is_large(book.asks, median_of(m.history_after(book))) ==> on_list(
            m.after_book(book, now_ns).pending,
            Side::Sell,
            book.asks[0].price_paise,
        ),
        is_large(book.bids, median_of(m.history_after(book))) && m.pending.len() <= 30 ==> on_list(
            m.after_book(book, now_ns).pending,
            Side::Buy,
            book.bids[0].price_paise,
        ),
{
    let stay = |q: PendingOrder| lingers(q, book, now_ns);
    m.pending.lemma_filter_len(stay);
    let kept = m.pending.filter(stay);
    let median = median_of(m.history_after(book));
    let with_bid = watch_top(kept, Side::Buy, first(book.bids), median, now_ns);
    let after = m.after_book(book, now_ns).pending;
    if is_large(book.bids, median) && m.pending.len() <= 30 {
        let price = book.bids[0].price_paise;
        lemma_watched_after(kept, Side::Buy, book.bids[0], median, now_ns);
        let k = choose|k: int|
            0 <= k < with_bid.len() && (#[trigger] with_bid[k]).side is Buy
                && with_bid[k].price_paise == price;
        assert(with_bid.contains(with_bid[k]));
        assert(with_bid.len() <= 31);
        lemma_watch_keeps(with_bid, Side::Sell, first(book.asks), median, now_ns, with_bid[k]);
        let j = choose|j: int| 0 <= j < after.len() && after[j] == with_bid[k];
        assert(after[j].side is Buy && after[j].price_paise == price);
    }
    if is_large(book.asks, median) {
        lemma_watched_after(with_bid, Side::Sell, book.asks[0], median, now_ns);
    }
}

proof fn lemma_watched_after(
    pending: Seq<PendingOrder>,
    side: Side,
    level: BookLevel,
    median: u64,
    now_ns: u64,
)
    requires
        median > 0,
        level.qty > 5 * median,
    ensures
        on_list(
            watch_top(pending, side, Some(level), median, now_ns),
            side,
            level.price_paise,
        ),
{
    let after = watch_top(pending, side, Some(level), median, now_ns);
    let entry = PendingOrder {
        side,
        price_paise: level.price_paise,
        qty: level.qty,
        placed_ts_ns: now_ns,
        filled_qty: 0,
    };
    if watched(pending, side, level.price_paise) {
        let k = choose|k: int|
            0 <= k < pending.len() && (#[trigger] pending[k]).side == side
                && pending[k].price_paise == level.price_paise;
        assert(after[k] == pending[k]);
    } else if pending.len() < 32 {
        assert(after[pending.len() as int] == entry);
    } else {
        crate::orderflow::events::lemma_some_quote_is_oldest(pending);
        assert(after[oldest_index(pending)] == entry);
    }
}

/// What is under watch after a book was under watch before, or is a best quote of
/// more than five times the median, watched from now with nothing of it traded.
pub proof fn law_only_large_quotes_join(m: DetectorModel, book: BookModel, now_ns: u64, k: int)
    requires
        0 <= k < m.after_book(book, now_ns).pending.len(),
    ensures
        ({
            let p = m.after_book(book, now_ns).pending[k];
            let median = median_of(m.history_after(book));
            let levels = if p.side is Buy {
                book.bids
            } else {
                book.asks
            };
            m.pending.contains(p) || (is_large(levels, median) && p == (PendingOrder {
                side: p.side,
                price_paise: levels[0].price_paise,
                qty: levels[0].qty,
                placed_ts_ns: now_ns,
                filled_qty: 0,
            }))
        }),
{
    let stay = |q: PendingOrder| lingers(q, book, now_ns);
    let kept = m.pending.filter(stay);
    let median = median_of(m.history_after(book));
    let with_bid = watch_top(kept, Side::Buy, first(book.bids), median, now_ns);
    let after = m.after_book(book, now_ns).pending;
    let p = after[k];
    assert(after.contains(p));
    lemma_joined(with_bid, Side::Sell, first(book.asks), median, now_ns, p);
    if with_bid.contains(p) {
        lemma_joined(kept, Side::Buy, first(book.bids), median, now_ns, p);
        if kept.contains(p) {
            m.pending.lemma_filter_contains_rev(stay, p);
        }
    }
}

proof fn lemma_joined(
    pending: Seq<PendingOrder>,
    side: Side,
    top: Option<BookLevel>,
    median: u64,
    now_ns: u64,
    p: PendingOrder,
)
    requires
        watch_top(pending, side, top, median, now_ns).contains(p),
    ensures
        pending.contains(p) || (top matches Some(level) && median > 0 && level.qty > 5 * median
            && p == (PendingOrder {
            side,
            price_paise: level.price_paise,
            qty: level.qty,
            placed_ts_ns: now_ns,
            filled_qty: 0,
        })),
{
    let after = watch_top(pending, side, top, median, now_ns);
    let k = choose|k: int| 0 <= k < after.len() && after[k] == p;
    if pending.len() >= 32 {
        crate::orderflow::events::lemma_some_quote_is_oldest(pending);
    }
    if k < pending.len() && after[k] == pending[k] {
        assert(pending.contains(p));
    }
}

/// Whether the best two levels of a side lie more than three ticks apart.
pub open spec fn lies_apart(levels: Seq<BookLevel>, tick_size_paise: i64) -> bool {
    levels.len() >= 2 && (levels[0].price_paise - levels[1].price_paise > 3 * tick_size_paise
        || levels[1].price_paise - levels[0].price_paise > 3 * tick_size_paise)
}

/// A book reports a gap on a side just where the best two levels lie more than three
/// ticks apart: at the best price, with the best size.
pub proof fn law_gaps_are_reported(m: DetectorModel, book: BookModel, now_ns: u64)
    requires
        3 * m.tick_size_paise <= i64::MAX,
        m.tick_size_paise >= 1,
    ensures
        lies_apart(book.bids, m.tick_size_paise) ==> m.book_events(book, now_ns).contains(
            OrderflowEvent::LiquidityGap {
                side: Side::Buy,
                level: Px(book.bids[0].price_paise),
                size: book.bids[0].qty,
            },
        ),
        lies_apart(book.asks, m.tick_size_paise) ==> m.book_events(book, now_ns).contains(
            OrderflowEvent::LiquidityGap {
                side: Side::Sell,
                level: Px(book.asks[0].price_paise),
                size: book.asks[0].qty,
            },
        ),
        forall|k: int|
            0 <= k < m.book_events(book, now_ns).len() ==> match #[trigger] m.book_events(
                book,
                now_ns,
            )[k] {
                OrderflowEvent::LiquidityGap { side, level, size } => {
                    let levels = if side is Buy {
                        book.bids
                    } else {
                        book.asks
                    };
                    lies_apart(levels, m.tick_size_paise) && level.0 == levels[0].price_paise
                        && size == levels[0].qty
                },
                OrderflowEvent::Spoofing { .. } => true,
                _ => false,
            },
{
    let events = m.book_events(book, now_ns);
    let bid_gap = OrderflowEvent::LiquidityGap {
        side: Side::Buy,
        level: Px(book.bids[0].price_paise),
        size: book.bids[0].qty,
    };
    let ask_gap = OrderflowEvent::LiquidityGap {
        side: Side::Sell,
        level: Px(book.asks[0].price_paise),
        size: book.asks[0].qty,
    };
    if lies_apart(book.bids, m.tick_size_paise) {
        assert(events[0] == bid_gap);
    }
    if lies_apart(book.asks, m.tick_size_paise) {
        if lies_apart(book.bids, m.tick_size_paise) {
            assert(events[1] == ask_gap);
        } else {
            assert(events[0] == ask_gap);
        }
    }
}

/// The two events of a trade that takes more than a level showed.
pub open spec fn excess_events(side: Side, level: BookLevel, qty: u64) -> Seq<OrderflowEvent> {
    seq![
        OrderflowEvent::Absorption { side, level: Px(level.price_paise), size: qty },
        OrderflowEvent::HiddenLiquidity { side, level: Px(level.price_paise) },
    ]
}

/// A trade at the best ask or above that is larger than the ask was absorbed by
/// sellers; one at the best bid or below that is larger than the bid, by buyers. No
/// other trade is reported.
pub proof fn law_excess_trades_are_reported(price_paise: i64, qty: u64, book: BookModel)
    ensures
        ({
            let events = trade_events(price_paise, qty, book);
            let lifts = book.asks.len() > 0 && price_paise >= book.asks[0].price_paise;
            let hits = book.bids.len() > 0 && price_paise <= book.bids[0].price_paise && !lifts;
            &&& lifts && qty > book.asks[0].qty ==> events == excess_events(
                Side::Sell,
                book.asks[0],
                qty,
            )
            &&& hits && qty > book.bids[0].qty ==> events == excess_events(
                Side::Buy,
                book.bids[0],
                qty,
            )
            &&& lifts && qty <= book.asks[0].qty ==> events.len() == 0
            &&& hits && qty <= book.bids[0].qty ==> events.len() == 0
            &&& !lifts && !hits ==> events.len() == 0
        }),
{
}

/// A trade counts against the watched quotes at its price, on either side: one that
/// has then traded whole is forgotten, and the others keep all else that is known of
/// them.
pub proof fn law_trades_fill_watched_quotes(
    m: DetectorModel,
    price_paise: i64,
    qty: u64,
    i: int,
)
    requires
        m.sound(),
        0 <= i < m.pending.len(),
    ensures
        m.pending[i].price_paise != price_paise ==> m.after_trade(
            price_paise,
            qty,
        ).pending.contains(m.pending[i]),
        m.pending[i].price_paise == price_paise && m.pending[i].filled_qty + qty
            < m.pending[i].qty ==> m.after_trade(price_paise, qty).pending.contains(
            PendingOrder {
                filled_qty: (m.pending[i].filled_qty + qty) as u64,
                ..m.pending[i]
            },
        ),
        m.pending[i].price_paise == price_paise && m.pending[i].filled_qty + qty
            >= m.pending[i].qty ==> !on_list(
            m.after_trade(price_paise, qty).pending,
            m.pending[i].side,
            price_paise,
        ),
{
    let p = m.pending[i];
    let after = m.after_trade(price_paise, qty).pending;
    if qty > 0 {
        let open = |p: PendingOrder| p.filled_qty < p.qty;
        let traded = m.pending.map_values(|p: PendingOrder| with_trade(p, price_paise, qty));
        assert(traded[i] == with_trade(p, price_paise, qty));
        if open(traded[i]) {
            traded.lemma_filter_contains(open, i);
        } else {
            assert forall|k: int| 0 <= k < after.len() implies (#[trigger] after[k]).side != p.side
                || after[k].price_paise != price_paise by {
                traded.lemma_filter_pred(open, k);
                assert(after.contains(after[k]));
                traded.lemma_filter_contains_rev(open, after[k]);
                let j = choose|j: int| 0 <= j < traded.len() && traded[j] == after[k];
                if j < i {
                    assert(m.pending[j].side != p.side || m.pending[j].price_paise
                        != p.price_paise);
                } else if i < j {
                    assert(p.side != m.pending[j].side || p.price_paise
                        != m.pending[j].price_paise);
                }
            }
        }
    } else {
        assert(after[i] == p);
    }
}

/// A trade adds nothing to the watch list, and changes neither the history nor the
/// best quotes that were last seen.
pub proof fn law_trades_add_no_quotes(m: DetectorModel, price_paise: i64, qty: u64)
    ensures
        m.after_trade(price_paise, qty).pending.len() <= m.pending.len(),
        m.after_trade(price_paise, qty).history == m.history,
        m.after_trade(price_paise, qty).tick_size_paise == m.tick_size_paise,
        m.after_trade(price_paise, qty).last_top_bid == m.last_top_bid,
        m.after_trade(price_paise, qty).last_top_ask == m.last_top_ask,
{
    let open = |p: PendingOrder| p.filled_qty < p.qty;
    let traded = m.pending.map_values(|p: PendingOrder| with_trade(p, price_paise, qty));
    traded.lemma_filter_len(open);
}

/// A quote that joins a full list takes the place of the one placed first, the earliest
/// in the list among equals. One that is watched already changes nothing.
pub proof fn law_full_lists_lose_the_oldest(
    pending: Seq<PendingOrder>,
    entry: PendingOrder,
    i: int,
)
    requires
        0 <= i < pending.len(),
        forall|j: int|
            0 <= j < pending.len() ==> pending[i].placed_ts_ns <= (
            #[trigger] pending[j]).placed_ts_ns,
        forall|j: int| 0 <= j < i ==> pending[i].placed_ts_ns < (#[trigger] pending[j]).placed_ts_ns,
    ensures
        (exists|j: int|
            0 <= j < pending.len() && (#[trigger] pending[j]).side == entry.side
                && pending[j].price_paise == entry.price_paise) ==> crate::orderflow::events::watch(
            pending,
            entry,
        ) == pending,
        !(exists|j: int|
            0 <= j < pending.len() && (#[trigger] pending[j]).side == entry.side
                && pending[j].price_paise == entry.price_paise) && pending.len() < 32
            ==> crate::orderflow::events::watch(pending, entry) == pending.push(entry),
        !(exists|j: int|
            0 <= j < pending.len() && (#[trigger] pending[j]).side == entry.side
                && pending[j].price_paise == entry.price_paise) && pending.len() >= 32
            ==> crate::orderflow::events::watch(pending, entry) == pending.update(i, entry),
{
    crate::orderflow::events::lemma_some_quote_is_oldest(pending);
    let k = oldest_index(pending);
    assert(pending[k].placed_ts_ns <= pending[i].placed_ts_ns);
    assert(pending[i].placed_ts_ns <= pending[k].placed_ts_ns);
    assert(k == i);
}

} // verus!
