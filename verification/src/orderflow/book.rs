//! The live order book of one symbol.
//!
//! Each update carries a full picture of both sides and replaces what was there.
//! The exchange time orders updates: one that is not newer than the last is
//! dropped.
use crate::base::bounded::capped;
use crate::base::schema::{BookLevel, OrderBook};
use crate::base::types::Px;
use vstd::prelude::*;

verus! {

/// The most levels kept on a side.
pub const MAX_BOOK_LEVELS: usize = 20;

/// Both sides of a book, best level first.
#[derive(Debug)]
pub struct LiveBook {
    pub bids: Vec<BookLevel>,
    pub asks: Vec<BookLevel>,
    /// Exchange time of the last update, zero before the first.
    pub last_seq: u64,
}

/// What a live book holds.
pub struct BookModel {
    pub bids: Seq<BookLevel>,
    pub asks: Seq<BookLevel>,
    pub last_seq: u64,
}

/// The first item of a sequence.
pub open spec fn first<T>(items: Seq<T>) -> Option<T> {
    if items.len() == 0 {
        None
    } else {
        Some(items[0])
    }
}

/// The quantity of the best level, zero for an empty side.
pub open spec fn top_qty(levels: Seq<BookLevel>) -> u64 {
    match first(levels) {
        Some(level) => level.qty,
        None => 0,
    }
}

impl BookModel {
    pub open spec fn empty() -> BookModel {
        BookModel { bids: Seq::empty(), asks: Seq::empty(), last_seq: 0 }
    }

    /// Whether an update is newer than the last one, or the first of all.
    pub open spec fn accepts(self, ts_ns: u64) -> bool {
        ts_ns > self.last_seq || self.last_seq == 0
    }

    /// The book after an update.
    pub open spec fn after(self, update: OrderBook) -> BookModel {
        if self.accepts(update.ts_ns) {
            BookModel {
                bids: capped(update.bid_levels@, MAX_BOOK_LEVELS as nat),
                asks: capped(update.ask_levels@, MAX_BOOK_LEVELS as nat),
                last_seq: update.ts_ns,
            }
        } else {
            self
        }
    }
}

impl View for LiveBook {
    type V = BookModel;

    open spec fn view(&self) -> BookModel {
        BookModel { bids: self.bids@, asks: self.asks@, last_seq: self.last_seq }
    }
}

impl LiveBook {
    /// Neither side is deeper than the limit.
    pub open spec fn wf(self) -> bool {
        self@.bids.len() <= MAX_BOOK_LEVELS && self@.asks.len() <= MAX_BOOK_LEVELS
    }

    pub fn new() -> (book: LiveBook)
        ensures
            book.wf(),
            book@ == BookModel::empty(),
    {
        LiveBook { bids: Vec::new(), asks: Vec::new(), last_seq: 0 }
    }

    pub fn is_empty(&self) -> (empty: bool)
        ensures
            empty == (self@.bids.len() == 0 && self@.asks.len() == 0),
    {
        self.bids.len() == 0 && self.asks.len() == 0
    }

    /// The best bid.
    pub fn top_bid(&self) -> (level: Option<BookLevel>)
        ensures
            level == first(self@.bids),
    {
        if self.bids.len() == 0 {
            None
        } else {
            Some(self.bids[0])
        }
    }

    /// The best ask.
    pub fn top_ask(&self) -> (level: Option<BookLevel>)
        ensures
            level == first(self@.asks),
    {
        if self.asks.len() == 0 {
            None
        } else {
            Some(self.asks[0])
        }
    }

    /// The price of the best bid.
    pub fn top_bid_px(&self) -> (px: Option<Px>)
        ensures
            px == match first(self@.bids) {
                Some(level) => Some(Px(level.price_paise)),
                None => None,
            },
    {
        match self.top_bid() {
            Some(level) => Some(Px(level.price_paise)),
            None => None,
        }
    }

    /// The price of the best ask.
    pub fn top_ask_px(&self) -> (px: Option<Px>)
        ensures
            px == match first(self@.asks) {
                Some(level) => Some(Px(level.price_paise)),
                None => None,
            },
    {
        match self.top_ask() {
            Some(level) => Some(Px(level.price_paise)),
            None => None,
        }
    }

    pub fn bid_levels(&self) -> (levels: &[BookLevel])
        ensures
            levels@ == self@.bids,
    {
        self.bids.as_slice()
    }

    pub fn ask_levels(&self) -> (levels: &[BookLevel])
        ensures
            levels@ == self@.asks,
    {
        self.asks.as_slice()
    }

    /// Take an update; it is dropped when it is not newer than the last.
    pub fn apply(&mut self, book: &OrderBook) -> (applied: bool)
        ensures
            applied == old(self)@.accepts(book.ts_ns),
            final(self)@ == old(self)@.after(*book),
            old(self).wf() ==> final(self).wf(),
            applied ==> final(self).wf(),
    {
        if book.ts_ns <= self.last_seq && self.last_seq != 0 {
            return false;
        }
        self.bids = first_levels(&book.bid_levels);
        self.asks = first_levels(&book.ask_levels);
        self.last_seq = book.ts_ns;
        true
    }

    /// Empty the book and forget the last update.
    pub fn clear(&mut self)
        ensures
            final(self).wf(),
            final(self)@ == BookModel::empty(),
    {
        self.bids.clear();
        self.asks.clear();
        self.last_seq = 0;
    }
}

/// The levels of a side up to the limit.
fn first_levels(levels: &Vec<BookLevel>) -> (out: Vec<BookLevel>)
    ensures
        out@ == capped(levels@, MAX_BOOK_LEVELS as nat),
{
    let mut out: Vec<BookLevel> = Vec::new();
    let mut i: usize = 0;
    while i < levels.len() && i < MAX_BOOK_LEVELS
        invariant
            i <= levels@.len(),
            i <= MAX_BOOK_LEVELS,
            out@ == levels@.take(i as int),
        decreases MAX_BOOK_LEVELS - i,
    {
        out.push(levels[i]);
        i = i + 1;
        assert(levels@.take(i as int) =~= levels@.take(i - 1).push(levels@[i - 1]));
    }
    assert(out@ =~= capped(levels@, MAX_BOOK_LEVELS as nat));
    out
}

impl Default for LiveBook {
    fn default() -> (book: LiveBook)
        ensures
            book.wf(),
            book@ == BookModel::empty(),
    {
        LiveBook::new()
    }
}

/// The exchange time of a book never goes back, and an update that was taken is
/// refused the second time.
pub proof fn law_updates_move_forward(book: BookModel, update: OrderBook)
    ensures
        book.after(update).last_seq >= book.last_seq,
        update.ts_ns != 0 ==> book.after(update).after(update) == book.after(update),
        update.ts_ns != 0 && book.accepts(update.ts_ns) ==> !book.after(update).accepts(
            update.ts_ns,
        ),
{
}

} // verus!
