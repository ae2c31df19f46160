//! The order-flow engine: one state per symbol, driven by books and ticks.
use crate::base::arith::{cap_u64, clamp_i64};
use crate::base::bounded::{capped, BoundedEvents};
use crate::base::schema::{OrderBook, Tick};
use crate::base::types::SymbolId;
use crate::orderflow::book::{first, top_qty, BookModel, LiveBook};
use crate::orderflow::events::{
    trade_events, Detector, DetectorModel, OrderflowEvent, DEFAULT_TICK_SIZE_PAISE, MAX_EVENTS,
};
use crate::orderflow::heatmap::{
    picture_of, watch_of, HeatmapModel, HeatmapSnapshot, OrderflowHeatmap,
};
use crate::orderflow::metrics::{
    balance, bid_ask_imbalance, buyers, depth_qty, liquidity_pressure, sellers, DeltaModel,
    OrderflowSnapshot, RollingDelta, DEFAULT_ROLLING_DELTA_WINDOW_NS,
};
use crate::orderflow::war_mode::WarModeProfile;
use std::collections::HashMap;
use tokio::sync::watch::Receiver;
use vstd::prelude::*;

verus! {

broadcast use vstd::std_specs::hash::group_hash_axioms;

/// All that is kept of one symbol.
#[derive(Debug)]
pub struct OrderflowState {
    pub symbol: SymbolId,
    pub book: LiveBook,
    pub detector: Detector,
    pub delta: RollingDelta,
    pub heatmap: OrderflowHeatmap,
}

/// What a state holds.
pub struct StateModel {
    pub symbol: SymbolId,
    pub book: BookModel,
    pub detector: DetectorModel,
    pub delta: DeltaModel,
    pub heatmap: HeatmapModel,
}

/// A volume window that has seen no trade.
pub open spec fn fresh_delta(window_ns: u64) -> DeltaModel {
    DeltaModel {
        window_ns,
        bucket_size_ns: if window_ns / 300 >= 1 {
            window_ns / 300
        } else {
            1
        },
        buckets: Seq::empty(),
        open: None,
    }
}

impl StateModel {
    /// A state that has seen nothing.
    pub open spec fn fresh(symbol: SymbolId, window_ns: u64) -> StateModel {
        StateModel {
            symbol,
            book: BookModel::empty(),
            detector: DetectorModel::fresh(DEFAULT_TICK_SIZE_PAISE),
            delta: fresh_delta(window_ns),
            heatmap: picture_of(symbol, BookModel::empty(), 0),
        }
    }

    /// The state after a book; one that the live book refuses changes nothing.
    pub open spec fn after_book(self, update: OrderBook, now_ns: u64) -> StateModel {
        if self.book.accepts(update.ts_ns) {
            let book = self.book.after(update);
            StateModel {
                book,
                detector: self.detector.after_book(book, now_ns),
                heatmap: picture_of(self.symbol, book, now_ns),
                ..self
            }
        } else {
            self
        }
    }

    /// Volume that a tick adds for aggressive buyers: all of it at the best ask
    /// or above.
    pub open spec fn buyer_volume_of(self, price_paise: i64, qty: u64) -> u64 {
        match first(self.book.asks) {
            Some(ask) => if price_paise >= ask.price_paise {
                qty
            } else {
                0
            },
            None => 0,
        }
    }

    /// Volume that a tick adds for aggressive sellers: all of it at the best bid
    /// or below.
    pub open spec fn seller_volume_of(self, price_paise: i64, qty: u64) -> u64 {
        match first(self.book.bids) {
            Some(bid) => if price_paise <= bid.price_paise {
                qty
            } else {
                0
            },
            None => 0,
        }
    }

    /// The state after a tick.
    pub open spec fn after_tick(self, price_paise: i64, qty: u64, now_ns: u64) -> StateModel {
        let buyer = self.buyer_volume_of(price_paise, qty);
        let seller = self.seller_volume_of(price_paise, qty);
        StateModel {
            delta: if buyer != 0 || seller != 0 {
                self.delta.after_record(now_ns, buyer, seller)
            } else {
                self.delta
            },
            detector: self.detector.after_trade(price_paise, qty),
            ..self
        }
    }

    /// Whether a snapshot gives the figures of this state, with these events.
    pub open spec fn gives(
        self,
        snap: OrderflowSnapshot,
        now_ns: u64,
        events: Seq<OrderflowEvent>,
    ) -> bool {
        &&& snap.symbol == self.symbol
        &&& snap.bid_ask_imbalance == balance(
            top_qty(self.book.bids) as int,
            top_qty(self.book.asks) as int,
        )
        &&& snap.aggressive_buyer_volume == cap_u64(self.delta.in_window(now_ns, buyers()))
        &&& snap.aggressive_seller_volume == cap_u64(self.delta.in_window(now_ns, sellers()))
        &&& snap.rolling_delta == clamp_i64(
            snap.aggressive_buyer_volume - snap.aggressive_seller_volume,
        )
        &&& snap.liquidity_pressure == balance(
            depth_qty(self.book.bids),
            depth_qty(self.book.asks),
        )
        &&& snap.events.wf()
        &&& snap.events@ == capped(events, MAX_EVENTS as nat)
    }
}

impl View for OrderflowState {
    type V = StateModel;

    open spec fn view(&self) -> StateModel {
        StateModel {
            symbol: self.symbol,
            book: self.book@,
            detector: self.detector@,
            delta: self.delta@,
            heatmap: self.heatmap.latest_snapshot(),
        }
    }
}

impl OrderflowState {
    pub open spec fn wf(self) -> bool {
        &&& self.book.wf()
        &&& self.detector.wf()
        &&& self.delta.wf()
        &&& self.heatmap.symbol_of() == self.symbol
    }

    /// A state with the default volume window.
    pub fn new(symbol: SymbolId) -> (state: OrderflowState)
        ensures
            state.wf(),
            !state.heatmap.ever_watched(),
            state@ == StateModel::fresh(symbol, DEFAULT_ROLLING_DELTA_WINDOW_NS),
    {
        Self::with_window(symbol, DEFAULT_ROLLING_DELTA_WINDOW_NS)
    }

    /// A state with the given volume window.
    pub fn with_window(symbol: SymbolId, rolling_delta_window_ns: u64) -> (state: OrderflowState)
        ensures
            state.wf(),
            !state.heatmap.ever_watched(),
            state@ == StateModel::fresh(symbol, rolling_delta_window_ns),
    {
        OrderflowState {
            symbol,
            book: LiveBook::new(),
            detector: Detector::new(),
            delta: RollingDelta::with_window(rolling_delta_window_ns),
            heatmap: OrderflowHeatmap::new(symbol),
        }
    }

    /// Watch the heatmap: a receiver on the channel on which it is published.
    pub fn subscribe_heatmap(&mut self) -> (receiver: Receiver<HeatmapSnapshot>)
        ensures
            watch_of(receiver) == final(self).heatmap.channel(),
            final(self).heatmap.channel() == old(self).heatmap.channel(),
            final(self).heatmap.ever_watched(),
            final(self)@ == old(self)@,
            old(self).wf() ==> final(self).wf(),
    {
        self.heatmap.subscribe()
    }

    /// Take a book. There is no snapshot for one that is not newer than the last.
    pub fn ingest_book(&mut self, book: &OrderBook, now_ns: u64) -> (snap: Option<
        OrderflowSnapshot,
    >)
        requires
            old(self).wf(),
        ensures
            final(self).wf(),
            final(self).heatmap.continues(old(self).heatmap),
            final(self)@ == old(self)@.after_book(*book, now_ns),
            match snap {
                Some(s) => old(self)@.book.accepts(book.ts_ns) && final(self)@.gives(
                    s,
                    now_ns,
                    old(self)@.detector.book_events(final(self)@.book, now_ns),
                ),
                None => !old(self)@.book.accepts(book.ts_ns),
            },
    {
        if !self.book.apply(book) {
            return None;
        }
        self.heatmap.publish_from_book(&self.book, now_ns);
        let mut events: BoundedEvents<OrderflowEvent, 4> = BoundedEvents::new();
        let ghost seen = self.detector@.book_events(self.book@, now_ns);
        self.detector.observe_book(&self.book, now_ns, &mut events);
        assert(Seq::<OrderflowEvent>::empty() + seen =~= seen);
        Some(self.snapshot(now_ns, events))
    }

    /// Take a tick.
    pub fn ingest_tick(&mut self, tick: &Tick, now_ns: u64) -> (snap: OrderflowSnapshot)
        requires
            old(self).wf(),
        ensures
            final(self).wf(),
            final(self).heatmap.continues(old(self).heatmap),
            final(self)@ == old(self)@.after_tick(tick.ltp_paise, tick.ltq, now_ns),
            final(self)@.gives(
                snap,
                now_ns,
                if tick.ltq == 0 {
                    Seq::empty()
                } else {
                    trade_events(tick.ltp_paise, tick.ltq, final(self)@.book)
                },
            ),
    {
        let mut buyer: u64 = 0;
        let mut seller: u64 = 0;
        if let Some(ask) = self.book.top_ask() {
            if tick.ltp_paise >= ask.price_paise {
                buyer = tick.ltq;
            }
        }
        if let Some(bid) = self.book.top_bid() {
            if tick.ltp_paise <= bid.price_paise {
                seller = tick.ltq;
            }
        }
        if buyer != 0 || seller != 0 {
            self.delta.record(now_ns, buyer, seller);
        }
        let mut events: BoundedEvents<OrderflowEvent, 4> = BoundedEvents::new();
        let ghost seen = if tick.ltq == 0 {
            Seq::empty()
        } else {
            trade_events(tick.ltp_paise, tick.ltq, self.book@)
        };
        self.detector.observe_trade(tick, &self.book, &mut events);
        assert(Seq::<OrderflowEvent>::empty() + seen =~= seen);
        self.snapshot(now_ns, events)
    }

    /// The figures of the state, with the given events.
    fn snapshot(&self, now_ns: u64, events: BoundedEvents<OrderflowEvent, 4>) -> (snap:
        OrderflowSnapshot)
        requires
            self.wf(),
            events.wf(),
        ensures
            forall|all: Seq<OrderflowEvent>|
                events@ == capped(all, MAX_EVENTS as nat) ==> #[trigger] self@.gives(
                    snap,
                    now_ns,
                    all,
                ),
    {
        OrderflowSnapshot {
            symbol: self.symbol,
            bid_ask_imbalance: bid_ask_imbalance(&self.book),
            aggressive_buyer_volume: self.delta.buyer_volume(now_ns),
            aggressive_seller_volume: self.delta.seller_volume(now_ns),
            rolling_delta: self.delta.signed_delta(now_ns),
            liquidity_pressure: liquidity_pressure(&self.book),
            events,
        }
    }
}

/// The states of all symbols.
#[derive(Debug)]
pub struct OrderflowEngine {
    states: HashMap<u32, OrderflowState>,
    rolling_delta_window_ns: u64,
    war_mode: WarModeProfile,
}

impl OrderflowEngine {
    /// What the engine holds, by symbol number.
    pub closed spec fn held(self) -> Map<u32, StateModel> {
        self.states@.map_values(|s: OrderflowState| s@)
    }

    /// The volume window of new states.
    pub closed spec fn window(self) -> u64 {
        self.rolling_delta_window_ns
    }

    /// The profile of the heightened mode.
    pub closed spec fn mode(self) -> WarModeProfile {
        self.war_mode
    }

    /// The channel on which the heatmap of a symbol is published.
    pub closed spec fn heatmap_channel(self, symbol: u32) -> int {
        self.states@[symbol].heatmap.channel()
    }

    /// Whether an engine publishes the heatmaps of all symbols that another holds on
    /// the channels of that one, so that those who watch go on watching.
    pub open spec fn keeps_channels(self, before: OrderflowEngine) -> bool {
        forall|k: u32| #[trigger]
            before.held().contains_key(k) ==> self.heatmap_channel(k) == before.heatmap_channel(k)
    }

    /// Every state is sound and filed under its own symbol.
    pub closed spec fn wf(self) -> bool {
        &&& self.states@.dom().finite()
        &&& forall|k: u32| #[trigger]
            self.states@.contains_key(k) ==> self.states@[k].wf() && self.states@[k].symbol.0 == k
    }

    /// The state of a symbol, fresh where none was kept yet.
    pub open spec fn state_at(self, symbol: u32) -> StateModel {
        if self.held().contains_key(symbol) {
            self.held()[symbol]
        } else {
            StateModel::fresh(SymbolId(symbol), self.window())
        }
    }

    /// An engine with the default volume window.
    pub fn new() -> (engine: OrderflowEngine)
        ensures
            engine.wf(),
            engine.held().dom() == Set::<u32>::empty(),
            engine.window() == DEFAULT_ROLLING_DELTA_WINDOW_NS,
            engine.mode().is_normal(),
    {
        Self::with_window(DEFAULT_ROLLING_DELTA_WINDOW_NS)
    }

    /// An engine with the given volume window.
    pub fn with_window(rolling_delta_window_ns: u64) -> (engine: OrderflowEngine)
        ensures
            engine.wf(),
            engine.held().dom() == Set::<u32>::empty(),
            engine.window() == rolling_delta_window_ns,
            engine.mode().is_normal(),
    {
        let engine = OrderflowEngine {
            states: HashMap::new(),
            rolling_delta_window_ns,
            war_mode: WarModeProfile::inactive(),
        };
        assert(engine.held().dom() =~= Set::<u32>::empty());
        engine
    }

    /// Take the state of a symbol out, making one where there was none.
    fn take_state(&mut self, symbol: u32) -> (state: OrderflowState)
        requires
            old(self).wf(),
        ensures
            final(self).wf(),
            state.wf(),
            state.symbol.0 == symbol,
            state@ == old(self).state_at(symbol),
            old(self).held().contains_key(symbol) ==> state.heatmap.channel() == old(
                self,
            ).heatmap_channel(symbol),
            forall|k: u32|
                k != symbol ==> #[trigger] final(self).heatmap_channel(k) == old(
                    self,
                ).heatmap_channel(k),
            final(self).held() == old(self).held().remove(symbol),
            final(self).window() == old(self).window(),
            final(self).mode() == old(self).mode(),
    {
        let found = self.states.remove(&symbol);
        assert(self.held() =~= old(self).held().remove(symbol));
        match found {
            Some(state) => state,
            None => OrderflowState::with_window(SymbolId(symbol), self.rolling_delta_window_ns),
        }
    }

    /// Put the state of a symbol back.
    fn put_state(&mut self, symbol: u32, state: OrderflowState)
        requires
            old(self).wf(),
            state.wf(),
            state.symbol.0 == symbol,
        ensures
            final(self).wf(),
            final(self).heatmap_channel(symbol) == state.heatmap.channel(),
            forall|k: u32|
                k != symbol ==> #[trigger] final(self).heatmap_channel(k) == old(
                    self,
                ).heatmap_channel(k),
            final(self).held() == old(self).held().insert(symbol, state@),
            final(self).window() == old(self).window(),
            final(self).mode() == old(self).mode(),
    {
        self.states.insert(symbol, state);
        assert(self.held() =~= old(self).held().insert(symbol, state@));
    }

    /// Make a state for a symbol ahead of its first book or tick.
    pub fn ensure_symbol(&mut self, symbol: SymbolId)
        requires
            old(self).wf(),
        ensures
            final(self).wf(),
            final(self).keeps_channels(*old(self)),
            final(self).held() == old(self).held().insert(
                symbol.0,
                old(self).state_at(symbol.0),
            ),
            final(self).window() == old(self).window(),
            final(self).mode() == old(self).mode(),
    {
        let state = self.take_state(symbol.0);
        self.put_state(symbol.0, state);
        assert(self.held() =~= old(self).held().insert(symbol.0, old(self).state_at(symbol.0)));
    }

    /// The heatmap of a symbol as last published, where the symbol is known.
    pub fn current_heatmap(&self, symbol: SymbolId) -> (snap: Option<HeatmapSnapshot>)
        ensures
            match snap {
                Some(s) => self.held().contains_key(symbol.0) && s@
                    == self.held()[symbol.0].heatmap,
                None => !self.held().contains_key(symbol.0),
            },
    {
        match self.states.get(&symbol.0) {
            Some(state) => Some(state.heatmap.get_snapshot()),
            None => None,
        }
    }

    /// Watch the heatmap of a symbol, where the symbol is known: a receiver on the
    /// channel on which it is published.
    pub fn subscribe_heatmap(&mut self, symbol: SymbolId) -> (receiver: Option<
        Receiver<HeatmapSnapshot>,
    >)
        ensures
            match receiver {
                Some(r) => old(self).held().contains_key(symbol.0) && watch_of(r) == old(
                    self,
                ).heatmap_channel(symbol.0),
                None => !old(self).held().contains_key(symbol.0),
            },
            final(self).keeps_channels(*old(self)),
            final(self).held() == old(self).held(),
            final(self).window() == old(self).window(),
            final(self).mode() == old(self).mode(),
            old(self).wf() ==> final(self).wf(),
    {
        match self.states.remove(&symbol.0) {
            Some(taken) => {
                let mut state = taken;
                let receiver = state.subscribe_heatmap();
                self.states.insert(symbol.0, state);
                assert(self.held() =~= old(self).held());
                Some(receiver)
            },
            None => {
                assert(self.held() =~= old(self).held());
                None
            },
        }
    }

    /// Take a book into the state of its symbol.
    pub fn ingest_book(&mut self, book: &OrderBook, now_ns: u64) -> (snap: Option<
        OrderflowSnapshot,
    >)
        requires
            old(self).wf(),
        ensures
            final(self).wf(),
            final(self).keeps_channels(*old(self)),
            final(self).held() == old(self).held().insert(
                book.symbol,
                old(self).state_at(book.symbol).after_book(*book, now_ns),
            ),
            final(self).window() == old(self).window(),
            final(self).mode() == old(self).mode(),
            match snap {
                Some(s) => {
                    &&& old(self).state_at(book.symbol).book.accepts(book.ts_ns)
                    &&& final(self).state_at(book.symbol).gives(
                        s,
                        now_ns,
                        old(self).state_at(book.symbol).detector.book_events(
                            final(self).state_at(book.symbol).book,
                            now_ns,
                        ),
                    )
                },
                None => !old(self).state_at(book.symbol).book.accepts(book.ts_ns),
            },
    {
        let mut state = self.take_state(book.symbol);
        let snap = state.ingest_book(book, now_ns);
        self.put_state(book.symbol, state);
        assert(self.held() =~= old(self).held().insert(
            book.symbol,
            old(self).state_at(book.symbol).after_book(*book, now_ns),
        ));
        snap
    }

    /// Take a tick into the state of its symbol.
    pub fn ingest_tick(&mut self, tick: &Tick, now_ns: u64) -> (snap: OrderflowSnapshot)
        requires
            old(self).wf(),
        ensures
            final(self).wf(),
            final(self).keeps_channels(*old(self)),
            final(self).held() == old(self).held().insert(
                tick.symbol,
                old(self).state_at(tick.symbol).after_tick(tick.ltp_paise, tick.ltq, now_ns),
            ),
            final(self).window() == old(self).window(),
            final(self).mode() == old(self).mode(),
            final(self).state_at(tick.symbol).gives(
                snap,
                now_ns,
                if tick.ltq == 0 {
                    Seq::empty()
                } else {
                    trade_events(
                        tick.ltp_paise,
                        tick.ltq,
                        old(self).state_at(tick.symbol).book,
                    )
                },
            ),
    {
        let mut state = self.take_state(tick.symbol);
        let snap = state.ingest_tick(tick, now_ns);
        self.put_state(tick.symbol, state);
        assert(self.held() =~= old(self).held().insert(
            tick.symbol,
            old(self).state_at(tick.symbol).after_tick(tick.ltp_paise, tick.ltq, now_ns),
        ));
        snap
    }

    /// Number of symbols with a state.
    pub fn tracked_symbol_count(&self) -> (n: usize)
        requires
            self.wf(),
        ensures
            n == self.held().dom().len(),
    {
        assert(self.held().dom() =~= self.states@.dom());
        self.states.len()
    }

    /// The profile of the heightened mode, to read or to switch.
    pub fn war_mode(&mut self) -> (profile: &mut WarModeProfile)
        ensures
            *profile == old(self).mode(),
            final(self).mode() == *final(profile),
            final(self).held() == old(self).held(),
            final(self).keeps_channels(*old(self)),
            final(self).window() == old(self).window(),
            old(self).wf() ==> final(self).wf(),
    {
        &mut self.war_mode
    }
}

} // verus!
