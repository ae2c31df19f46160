//! What the book, its picture and its figures say, in terms of the levels quoted.
use crate::base::json::JsonModel;
use crate::base::schema::{BookLevel, OrderBook};
use crate::base::types::SymbolId;
use crate::orderflow::book::{top_qty, BookModel};
use crate::orderflow::engine::{OrderflowEngine, StateModel};
use crate::orderflow::events::OrderflowEvent;
use crate::orderflow::feed::{quote_body, quoted_levels, states_quote, QuoteMessage};
use crate::orderflow::heatmap::{blank_row, picture_of};
use crate::orderflow::metrics::{
    balance, buyers, depth_qty, sellers, sum_qty, OrderflowSnapshot,
    DEFAULT_ROLLING_DELTA_WINDOW_NS,
};
use crate::orderflow::war_mode::WarModeProfile;
use vstd::prelude::*;

verus! {

/// Whether a side of a book is the first twenty levels of what was sent.
pub open spec fn is_top_of(levels: Seq<BookLevel>, sent: Seq<BookLevel>) -> bool {
    &&& levels.len() == if sent.len() <= 20 {
        sent.len()
    } else {
        20
    }
    &&& forall|i: int| 0 <= i < levels.len() ==> #[trigger] levels[i] == sent[i]
}

/// A book takes over both sides of a newer update, up to twenty levels each, with its
/// time; one that is not newer than the last is dropped. The first update is taken
/// whatever its time.
pub proof fn law_book_is_the_newest_update(book: BookModel, update: OrderBook)
    ensures
        update.ts_ns > book.last_seq || book.last_seq == 0 ==> {
            &&& book.accepts(update.ts_ns)
            &&& is_top_of(book.after(update).bids, update.bid_levels@)
            &&& is_top_of(book.after(update).asks, update.ask_levels@)
            &&& book.after(update).last_seq == update.ts_ns
        },
        update.ts_ns <= book.last_seq && book.last_seq != 0 ==> !book.accepts(update.ts_ns)
            && book.after(update) == book,
        BookModel::empty().bids.len() == 0 && BookModel::empty().asks.len() == 0
            && BookModel::empty().last_seq == 0,
{
}

/// The picture of a book has twenty rows: at each depth the bid and the ask that stand
/// there, and zeros where the side is not that deep.
pub proof fn law_picture_shows_the_levels(symbol: SymbolId, book: BookModel, ts_ns: u64, depth: int)
    requires
        0 <= depth < 20,
    ensures
        ({
            let picture = picture_of(symbol, book, ts_ns);
            let row = picture.rows[depth];
            &&& picture.symbol == symbol && picture.ts_ns == ts_ns && picture.rows.len() == 20
            &&& depth < book.bids.len() ==> row.bid_price_paise == book.bids[depth].price_paise
                && row.bid_qty == book.bids[depth].qty
            &&& depth < book.asks.len() ==> row.ask_price_paise == book.asks[depth].price_paise
                && row.ask_qty == book.asks[depth].qty
            &&& depth >= book.bids.len() ==> row.bid_price_paise == 0 && row.bid_qty == 0
            &&& depth >= book.asks.len() ==> row.ask_price_paise == 0 && row.ask_qty == 0
        }),
        blank_row().bid_price_paise == 0 && blank_row().bid_qty == 0
            && blank_row().ask_price_paise == 0 && blank_row().ask_qty == 0,
{
}

/// The size of a best quote, zero for an empty side.
pub open spec fn best_size(levels: Seq<BookLevel>) -> int {
    if levels.len() > 0 {
        levels[0].qty as int
    } else {
        0
    }
}

/// The imbalance is the size of the best bid less that of the best ask, over both: a
/// heavier bid makes it positive.
pub proof fn law_imbalance_weighs_the_best_quotes(book: BookModel)
    ensures
        ({
            let r = balance(top_qty(book.bids) as int, top_qty(book.asks) as int);
            &&& r.num == best_size(book.bids) - best_size(book.asks)
            &&& r.den == best_size(book.bids) + best_size(book.asks)
        }),
{
}

/// The pressure counts the sizes of the best five levels of each side, bids against
/// asks: a level more counts while there are fewer than five.
pub proof fn law_pressure_weighs_five_levels(levels: Seq<BookLevel>, next: BookLevel, other: int)
    requires
        0 <= other <= 5 * u64::MAX,
    ensures
        depth_qty(Seq::<BookLevel>::empty()) == 0,
        levels.len() < 5 ==> depth_qty(levels.push(next)) == depth_qty(levels) + next.qty,
        levels.len() >= 5 ==> depth_qty(levels.push(next)) == depth_qty(levels),
        0 <= depth_qty(levels) <= 5 * u64::MAX,
        balance(depth_qty(levels), other).num == depth_qty(levels) - other,
        balance(depth_qty(levels), other).den == depth_qty(levels) + other,
        balance(other, depth_qty(levels)).num == other - depth_qty(levels),
{
    lemma_depth(levels);
    if levels.len() < 5 {
        assert(levels.push(next).drop_last() =~= levels);
    } else {
        assert(levels.push(next).take(5) =~= levels.take(5));
        if levels.len() == 5 {
            assert(levels.take(5) =~= levels);
        }
    }
}

proof fn lemma_depth(levels: Seq<BookLevel>)
    ensures
        0 <= depth_qty(levels) <= 5 * u64::MAX,
{
    if levels.len() <= 5 {
        lemma_sum(levels);
    } else {
        lemma_sum(levels.take(5));
    }
}

proof fn lemma_sum(levels: Seq<BookLevel>)
    ensures
        0 <= sum_qty(levels) <= levels.len() * u64::MAX,
    decreases levels.len(),
{
    if levels.len() > 0 {
        lemma_sum(levels.drop_last());
    }
}

/// A tick at the best ask or above is bought, one at the best bid or below is sold,
/// and counts so in the volume window; any other leaves the window alone. The book
/// and its picture do not change with a tick.
pub proof fn law_ticks_count_for_their_side(
    s: StateModel,
    price_paise: i64,
    qty: u64,
    now_ns: u64,
)
    ensures
        ({
            let after = s.after_tick(price_paise, qty, now_ns);
            let bought: u64 = if s.book.asks.len() > 0 && price_paise
                >= s.book.asks[0].price_paise {
                qty
            } else {
                0
            };
            let sold: u64 = if s.book.bids.len() > 0 && price_paise <= s.book.bids[0].price_paise {
                qty
            } else {
                0
            };
            &&& bought == 0 && sold == 0 ==> after.delta == s.delta
            &&& bought > 0 || sold > 0 ==> after.delta == s.delta.after_record(now_ns, bought, sold)
            &&& after.detector == s.detector.after_trade(price_paise, qty)
            &&& after.symbol == s.symbol && after.book == s.book && after.heatmap == s.heatmap
        }),
{
}

/// A book that is taken is seen by the detector and drawn, as of the time given; one
/// that is refused changes nothing. Either way the volume window stays.
pub proof fn law_books_are_seen_and_drawn(s: StateModel, update: OrderBook, now_ns: u64)
    ensures
        ({
            let after = s.after_book(update, now_ns);
            let newer = update.ts_ns > s.book.last_seq || s.book.last_seq == 0;
            &&& !newer ==> after == s
            &&& newer ==> {
                &&& after.book == s.book.after(update)
                &&& after.detector == s.detector.after_book(after.book, now_ns)
                &&& after.heatmap == picture_of(s.symbol, after.book, now_ns)
            }
            &&& after.delta == s.delta && after.symbol == s.symbol
        }),
{
}

/// A state starts with nothing: no levels, no volume, no quotes under watch, a tick of
/// one paisa and a window of thirty seconds in a hundred-millisecond buckets.
pub proof fn law_states_start_empty(symbol: SymbolId)
    ensures
        ({
            let s = StateModel::fresh(symbol, DEFAULT_ROLLING_DELTA_WINDOW_NS);
            &&& s.symbol == symbol
            &&& s.book.bids.len() == 0 && s.book.asks.len() == 0 && s.book.last_seq == 0
            &&& s.delta.buckets.len() == 0 && s.delta.open is None
            &&& s.delta.window_ns == 30_000_000_000 && s.delta.bucket_size_ns == 100_000_000
            &&& s.detector.history.len() == 0 && s.detector.pending.len() == 0
            &&& s.detector.tick_size_paise == 1
            &&& s.heatmap.symbol == symbol && s.heatmap.ts_ns == 0
        }),
{
}

/// What a snapshot says of a state: the volumes of both sides in the window, what the
/// buyers are ahead, and at most four of the events, the first ones.
pub proof fn law_snapshots_give_the_figures(
    s: StateModel,
    snap: OrderflowSnapshot,
    now_ns: u64,
    events: Seq<OrderflowEvent>,
)
    requires
        s.gives(snap, now_ns, events),
        0 <= s.delta.in_window(now_ns, buyers()) <= i64::MAX,
        0 <= s.delta.in_window(now_ns, sellers()) <= i64::MAX,
    ensures
        snap.symbol == s.symbol,
        snap.aggressive_buyer_volume == s.delta.in_window(now_ns, buyers()),
        snap.aggressive_seller_volume == s.delta.in_window(now_ns, sellers()),
        snap.rolling_delta == snap.aggressive_buyer_volume - snap.aggressive_seller_volume,
        snap.bid_ask_imbalance.num == best_size(s.book.bids) - best_size(s.book.asks),
        snap.bid_ask_imbalance.den == best_size(s.book.bids) + best_size(s.book.asks),
        snap.liquidity_pressure.num == depth_qty(s.book.bids) - depth_qty(s.book.asks),
        snap.liquidity_pressure.den == depth_qty(s.book.bids) + depth_qty(s.book.asks),
        snap.events@.len() == if events.len() <= 4 {
            events.len()
        } else {
            4
        },
        forall|i: int| 0 <= i < snap.events@.len() ==> #[trigger] snap.events@[i] == events[i],
{
    lemma_depth(s.book.bids);
    lemma_depth(s.book.asks);
}

/// The factor of the heightened mode is its multiplier while it is on and the
/// multiplier is a number above zero; else it is one.
pub proof fn law_mode_scales_while_it_is_on(p: WarModeProfile)
    ensures
        p.on() && 0 < p.multiplier() <= 0x7f80_0000 ==> p.sensitivity() == p.multiplier(),
        !p.on() || p.multiplier() == 0 || p.multiplier() > 0x7f80_0000 ==> p.sensitivity()
            == 0x3f80_0000,
        p.is_normal() ==> !p.on() && p.multiplier() == 0x3f80_0000 && p.floor() == 0,
{
}

/// A side of a quote is one level at its price, with its size and one order, or none
/// where the size is zero.
pub proof fn law_quotes_make_one_level(price_paise: i64, qty: u64)
    ensures
        qty == 0 ==> quoted_levels(price_paise, qty).len() == 0,
        qty > 0 ==> quoted_levels(price_paise, qty).len() == 1 && quoted_levels(price_paise, qty)[0]
            == (BookLevel { price_paise, qty, orders: 1 }),
{
}

/// Whether a record has an integer under a key.
pub open spec fn has_number(fields: Map<Seq<char>, JsonModel>, key: Seq<char>, n: int) -> bool {
    fields.contains_key(key) && fields[key] == JsonModel::Number(Some(n))
}

/// A book message is read from the `data` in it: the symbol, the best bid and ask, in
/// paise and with their sizes, and the time. What is missing counts as zero; a message
/// without data, or without a symbol in it, is none.
pub proof fn law_quotes_are_read_by_name(
    message: Map<Seq<char>, JsonModel>,
    data: Map<Seq<char>, JsonModel>,
    symbol: Seq<char>,
    quote: QuoteMessage,
    n: int,
)
    requires
        message.contains_key("data"@),
        message["data"@] == JsonModel::Record(data),
        data.contains_key("symbol"@),
        data["symbol"@] == JsonModel::Text(symbol),
        quote_body(JsonModel::Record(message)) matches Some(body) ==> states_quote(body, quote),
    ensures
        quote_body(JsonModel::Record(message)) is Some,
        quote.symbol@ == symbol,
        has_number(data, "bid_paise"@, n) && i64::MIN <= n <= i64::MAX ==> quote.bid_paise == n,
        has_number(data, "ask_paise"@, n) && i64::MIN <= n <= i64::MAX ==> quote.ask_paise == n,
        has_number(data, "bid_qty"@, n) && 0 <= n <= u64::MAX ==> quote.bid_qty == n,
        has_number(data, "ask_qty"@, n) && 0 <= n <= u64::MAX ==> quote.ask_qty == n,
        has_number(data, "ts_ns"@, n) && 0 <= n <= u64::MAX ==> (quote.ts_ns matches Some(t) && t
            == n),
        !data.contains_key("bid_paise"@) ==> quote.bid_paise == 0,
        !data.contains_key("ask_paise"@) ==> quote.ask_paise == 0,
        !data.contains_key("bid_qty"@) ==> quote.bid_qty == 0,
        !data.contains_key("ask_qty"@) ==> quote.ask_qty == 0,
        !data.contains_key("ts_ns"@) ==> quote.ts_ns is None,
{
}

/// A message without data, or whose data name no symbol, has no quotes.
pub proof fn law_nameless_quotes_are_dropped(message: Map<Seq<char>, JsonModel>)
    requires
        !message.contains_key("data"@) || (message["data"@] matches JsonModel::Record(data)
            && !data.contains_key("symbol"@)),
    ensures
        quote_body(JsonModel::Record(message)) is None,
{
}

/// A symbol has the state it was given, and a fresh one with the engine's window where
/// it has none.
pub proof fn law_unknown_symbols_start_fresh(engine: OrderflowEngine, symbol: u32)
    ensures
        engine.held().contains_key(symbol) ==> engine.state_at(symbol) == engine.held()[symbol],
        !engine.held().contains_key(symbol) ==> engine.state_at(symbol) == StateModel::fresh(
            SymbolId(symbol),
            engine.window(),
        ),
{
}

} // verus!
