//! The depth picture of a book: twenty rows of bid and ask.
use crate::base::schema::BookLevel;
use crate::base::types::SymbolId;
use crate::orderflow::book::{BookModel, LiveBook, MAX_BOOK_LEVELS};
use tokio::sync::watch;
use tokio::sync::watch::{Receiver, Sender};
use vstd::prelude::*;

verus! {

/// One depth slot; an empty one is all zeros.
#[derive(Clone, Copy, Debug, PartialEq, Eq, Structural)]
pub struct HeatmapRow {
    pub bid_price_paise: i64,
    pub bid_qty: u64,
    pub ask_price_paise: i64,
    pub ask_qty: u64,
}

/// The row of an empty slot.
pub open spec fn blank_row() -> HeatmapRow {
    HeatmapRow { bid_price_paise: 0, bid_qty: 0, ask_price_paise: 0, ask_qty: 0 }
}

/// The row that a book has at a depth.
pub open spec fn row_at(book: BookModel, depth: int) -> HeatmapRow {
    HeatmapRow {
        bid_price_paise: if depth < book.bids.len() {
            book.bids[depth].price_paise
        } else {
            0
        },
        bid_qty: if depth < book.bids.len() {
            book.bids[depth].qty
        } else {
            0
        },
        ask_price_paise: if depth < book.asks.len() {
            book.asks[depth].price_paise
        } else {
            0
        },
        ask_qty: if depth < book.asks.len() {
            book.asks[depth].qty
        } else {
            0
        },
    }
}

impl HeatmapRow {
    /// The row of an empty slot.
    pub fn blank() -> (row: HeatmapRow)
        ensures
            row == blank_row(),
    {
        HeatmapRow { bid_price_paise: 0, bid_qty: 0, ask_price_paise: 0, ask_qty: 0 }
    }
}

impl Default for HeatmapRow {
    fn default() -> (row: HeatmapRow)
        ensures
            row == blank_row(),
    {
        HeatmapRow::blank()
    }
}

/// The heatmap of one symbol at one time.
#[derive(Clone, Debug, PartialEq, Eq)]
pub struct HeatmapSnapshot {
    pub symbol: SymbolId,
    pub ts_ns: u64,
    pub rows: [HeatmapRow; 20],
}

/// What a snapshot holds.
pub struct HeatmapModel {
    pub symbol: SymbolId,
    pub ts_ns: u64,
    pub rows: Seq<HeatmapRow>,
}

impl View for HeatmapSnapshot {
    type V = HeatmapModel;

    open spec fn view(&self) -> HeatmapModel {
        HeatmapModel { symbol: self.symbol, ts_ns: self.ts_ns, rows: self.rows@ }
    }
}

/// The picture of a book at a time.
pub open spec fn picture_of(symbol: SymbolId, book: BookModel, ts_ns: u64) -> HeatmapModel {
    HeatmapModel {
        symbol,
        ts_ns,
        rows: Seq::new(MAX_BOOK_LEVELS as nat, |i: int| row_at(book, i)),
    }
}

impl HeatmapSnapshot {
    /// A snapshot of nothing.
    pub fn empty(symbol: SymbolId) -> (snap: HeatmapSnapshot)
        ensures
            snap@ == picture_of(symbol, BookModel::empty(), 0),
    {
        let snap = HeatmapSnapshot { symbol, ts_ns: 0, rows: [HeatmapRow::blank();20] };
        assert(snap@.rows =~= picture_of(symbol, BookModel::empty(), 0).rows);
        snap
    }

    /// Redraw the snapshot from a book.
    pub fn fill_from(&mut self, book: &LiveBook, ts_ns: u64)
        ensures
            final(self)@ == picture_of(old(self).symbol, book@, ts_ns),
    {
        self.ts_ns = ts_ns;
        let mut i: usize = 0;
        while i < MAX_BOOK_LEVELS
            invariant
                i <= MAX_BOOK_LEVELS,
                self.symbol == old(self).symbol,
                self.ts_ns == ts_ns,
                forall|j: int| 0 <= j < i ==> #[trigger] self.rows@[j] == row_at(book@, j),
            decreases MAX_BOOK_LEVELS - i,
        {
            let bid: BookLevel = level_or_zero(book.bid_levels(), i);
            let ask: BookLevel = level_or_zero(book.ask_levels(), i);
            self.rows[i] = HeatmapRow {
                bid_price_paise: bid.price_paise,
                bid_qty: bid.qty,
                ask_price_paise: ask.price_paise,
                ask_qty: ask.qty,
            };
            i = i + 1;
        }
        assert(self@.rows =~= picture_of(self.symbol, book@, ts_ns).rows);
    }

    /// A snapshot of a book.
    pub fn from_book(symbol: SymbolId, book: &LiveBook, ts_ns: u64) -> (snap: HeatmapSnapshot)
        ensures
            snap@ == picture_of(symbol, book@, ts_ns),
    {
        let mut snap = HeatmapSnapshot::empty(symbol);
        snap.fill_from(book, ts_ns);
        snap
    }

    /// Whether every row is blank.
    pub fn is_empty(&self) -> (empty: bool)
        ensures
            empty == (forall|i: int|
                0 <= i < MAX_BOOK_LEVELS ==> #[trigger] self.rows@[i] == blank_row()),
    {
        let mut i: usize = 0;
        while i < MAX_BOOK_LEVELS
            invariant
                i <= MAX_BOOK_LEVELS,
                forall|j: int| 0 <= j < i ==> #[trigger] self.rows@[j] == blank_row(),
            decreases MAX_BOOK_LEVELS - i,
        {
            if self.rows[i] != HeatmapRow::blank() {
                assert(self.rows@[i as int] != blank_row());
                return false;
            }
            i = i + 1;
        }
        true
    }
}

/// The level at an index, or one of all zeros.
fn level_or_zero(levels: &[BookLevel], i: usize) -> (level: BookLevel)
    ensures
        level == if i < levels@.len() {
            levels@[i as int]
        } else {
            BookLevel { price_paise: 0, qty: 0, orders: 0 }
        },
{
    if i < levels.len() {
        levels[i]
    } else {
        BookLevel { price_paise: 0, qty: 0, orders: 0 }
    }
}

#[verifier::external_type_specification]
#[verifier::external_body]
#[verifier::reject_recursive_types(T)]
pub struct ExWatchSender<T>(tokio::sync::watch::Sender<T>);

#[verifier::external_type_specification]
#[verifier::external_body]
#[verifier::reject_recursive_types(T)]
pub struct ExWatchReceiver<T>(tokio::sync::watch::Receiver<T>);

/// What is known of a watch channel.
pub struct WatchModel {
    /// Which channel it is.
    pub id: int,
    /// The snapshot that it shows.
    pub shown: HeatmapModel,
    /// Whether anyone ever came to watch it.
    pub watched: bool,
}

/// The channel that a sender holds.
pub uninterp spec fn watch_held(sender: Sender<HeatmapSnapshot>) -> WatchModel;

/// Which channel a receiver is on: the same for two receivers where `same_channel`
/// says so.
pub uninterp spec fn watch_of(receiver: Receiver<HeatmapSnapshot>) -> int;

/// Calls `watch::channel`: the channel shows the given snapshot. Its first receiver
/// is dropped, so that nobody watches it.
#[verifier::external_body]
fn open_watch(snap: HeatmapSnapshot) -> (sender: Sender<HeatmapSnapshot>)
    ensures
        watch_held(sender).shown == snap@,
        !watch_held(sender).watched,
{
    watch::channel(snap).0
}

/// Calls `Sender::send_replace`: the channel now shows the given snapshot.
#[verifier::external_body]
fn show(sender: &mut Sender<HeatmapSnapshot>, snap: HeatmapSnapshot)
    ensures
        watch_held(*final(sender)) == (WatchModel { shown: snap@, ..watch_held(*old(sender)) }),
{
    sender.send_replace(snap);
}

/// Calls `Sender::borrow`: the snapshot that the channel shows, copied out.
#[verifier::external_body]
fn read_shown(sender: &Sender<HeatmapSnapshot>) -> (snap: HeatmapSnapshot)
    ensures
        snap@ == watch_held(*sender).shown,
{
    sender.borrow().clone()
}

/// Calls `Sender::subscribe`: a receiver on the sender's channel, which then has
/// been watched. What the receiver will see is left open: it is the snapshot that
/// the channel shows when the receiver looks.
#[verifier::external_body]
fn watch_channel(sender: &mut Sender<HeatmapSnapshot>) -> (receiver: Receiver<HeatmapSnapshot>)
    ensures
        watch_of(receiver) == watch_held(*old(sender)).id,
        watch_held(*final(sender)) == (WatchModel { watched: true, ..watch_held(*old(sender)) }),
{
    sender.subscribe()
}

/// Calls `Sender::receiver_count`: none where nobody ever came to watch. Otherwise
/// the number is left open: it depends on which receivers are alive.
#[verifier::external_body]
fn count_watchers(sender: &Sender<HeatmapSnapshot>) -> (n: usize)
    ensures
        !watch_held(*sender).watched ==> n == 0,
{
    sender.receiver_count()
}

/// The heatmap of a symbol as it was last published. Whoever watches it sees the
/// latest snapshot, never a backlog.
#[derive(Debug)]
pub struct OrderflowHeatmap {
    symbol: SymbolId,
    sender: Sender<HeatmapSnapshot>,
}

impl OrderflowHeatmap {
    /// The symbol of the heatmap.
    pub closed spec fn symbol_of(self) -> SymbolId {
        self.symbol
    }

    /// The snapshot that was published last.
    pub closed spec fn latest_snapshot(self) -> HeatmapModel {
        watch_held(self.sender).shown
    }

    /// The channel on which snapshots are published.
    pub closed spec fn channel(self) -> int {
        watch_held(self.sender).id
    }

    /// Whether anyone ever came to watch.
    pub closed spec fn ever_watched(self) -> bool {
        watch_held(self.sender).watched
    }

    /// Whether a heatmap is another with the same symbol, channel and watchers, at
    /// most another snapshot.
    pub open spec fn continues(self, before: OrderflowHeatmap) -> bool {
        &&& self.symbol_of() == before.symbol_of()
        &&& self.channel() == before.channel()
        &&& self.ever_watched() == before.ever_watched()
    }

    /// A heatmap on which nothing was published.
    pub fn new(symbol: SymbolId) -> (map: OrderflowHeatmap)
        ensures
            map.symbol_of() == symbol,
            map.latest_snapshot() == picture_of(symbol, BookModel::empty(), 0),
            !map.ever_watched(),
    {
        OrderflowHeatmap { symbol, sender: open_watch(HeatmapSnapshot::empty(symbol)) }
    }

    pub fn symbol(&self) -> (symbol: SymbolId)
        ensures
            symbol == self.symbol_of(),
    {
        self.symbol
    }

    /// Watch the heatmap: a receiver on the channel on which it is published.
    pub fn subscribe(&mut self) -> (receiver: Receiver<HeatmapSnapshot>)
        ensures
            watch_of(receiver) == final(self).channel(),
            final(self).channel() == old(self).channel(),
            final(self).symbol_of() == old(self).symbol_of(),
            final(self).latest_snapshot() == old(self).latest_snapshot(),
            final(self).ever_watched(),
    {
        watch_channel(&mut self.sender)
    }

    /// Number of those who watch: none where nobody ever came to.
    pub fn receiver_count(&self) -> (n: usize)
        ensures
            !self.ever_watched() ==> n == 0,
    {
        count_watchers(&self.sender)
    }

    /// A copy of the last snapshot.
    pub fn get_snapshot(&self) -> (snap: HeatmapSnapshot)
        ensures
            snap@ == self.latest_snapshot(),
    {
        read_shown(&self.sender)
    }

    /// Publish a picture of a book.
    pub fn publish_from_book(&mut self, book: &LiveBook, ts_ns: u64)
        ensures
            final(self).continues(*old(self)),
            final(self).latest_snapshot() == picture_of(old(self).symbol_of(), book@, ts_ns),
    {
        show(&mut self.sender, HeatmapSnapshot::from_book(self.symbol, book, ts_ns));
    }

    /// Publish a given snapshot.
    pub fn publish(&mut self, snap: HeatmapSnapshot)
        ensures
            final(self).continues(*old(self)),
            final(self).latest_snapshot() == snap@,
    {
        show(&mut self.sender, snap);
    }
}

} // verus!
