//! Sector and volatility breadth, published in batches.
use crate::base::bounded::{latest, RingWindow};
use crate::base::schema::Tick;
use crate::base::text::same_text;
use std::collections::HashMap;
use vstd::prelude::*;
use vstd::string::StringExecFns;

verus! {

/// How many moves of each symbol count towards volatility.
pub const VOLATILITY_WINDOW: usize = 60;

/// Ticks after which a batch is published.
pub const DEFAULT_BATCH_TICKS: u32 = 100;

/// Time after which a batch is published, in nanoseconds.
pub const DEFAULT_BATCH_INTERVAL: u64 = 250_000_000;

/// A move of a price, in paise. The return of the move is the change over the price
/// that it starts from, which is not zero.
#[derive(Clone, Copy, Debug, PartialEq, Eq, Structural)]
pub struct PriceMove {
    pub from_paise: i64,
    pub to_paise: i64,
}

/// What is known of one symbol.
pub struct SymbolModel {
    pub symbol: u32,
    pub last_ltp_paise: i64,
    /// Zero where it is not known.
    pub prev_close_paise: i64,
    pub prev_ltp_paise: Option<i64>,
    pub moves: Seq<PriceMove>,
}

impl SymbolModel {
    /// A symbol of which no tick was seen.
    pub open spec fn unseen(symbol: u32, prev_close_paise: i64) -> SymbolModel {
        SymbolModel {
            symbol,
            last_ltp_paise: 0,
            prev_close_paise,
            prev_ltp_paise: None,
            moves: Seq::empty(),
        }
    }

    /// The symbol after a trade at a price.
    pub open spec fn traded(self, ltp_paise: i64) -> SymbolModel {
        SymbolModel {
            last_ltp_paise: ltp_paise,
            prev_ltp_paise: Some(ltp_paise),
            moves: match self.prev_ltp_paise {
                Some(from_paise) => if from_paise != 0 {
                    latest(
                        self.moves.push(PriceMove { from_paise, to_paise: ltp_paise }),
                        VOLATILITY_WINDOW as nat,
                    )
                } else {
                    self.moves
                },
                None => self.moves,
            },
            ..self
        }
    }
}

/// The record of one symbol.
#[derive(Debug)]
struct SymbolState {
    symbol: u32,
    last_ltp_paise: i64,
    prev_close_paise: i64,
    prev_ltp_paise: Option<i64>,
    moves: RingWindow<PriceMove, VOLATILITY_WINDOW>,
}

impl SymbolState {
    spec fn model(self) -> SymbolModel {
        SymbolModel {
            symbol: self.symbol,
            last_ltp_paise: self.last_ltp_paise,
            prev_close_paise: self.prev_close_paise,
            prev_ltp_paise: self.prev_ltp_paise,
            moves: self.moves@,
        }
    }

    fn new(symbol: u32, prev_close_paise: i64) -> (s: SymbolState)
        ensures
            s.moves.wf(),
            s.model() == SymbolModel::unseen(symbol, prev_close_paise),
    {
        SymbolState {
            symbol,
            last_ltp_paise: 0,
            prev_close_paise,
            prev_ltp_paise: None,
            moves: RingWindow::new(),
        }
    }

    fn trade(&mut self, ltp_paise: i64)
        requires
            old(self).moves.wf(),
        ensures
            final(self).moves.wf(),
            final(self).model() == old(self).model().traded(ltp_paise),
    {
        match self.prev_ltp_paise {
            Some(from_paise) => {
                if from_paise != 0 {
                    self.moves.push(PriceMove { from_paise, to_paise: ltp_paise });
                }
            },
            None => {},
        }
        self.last_ltp_paise = ltp_paise;
        self.prev_ltp_paise = Some(ltp_paise);
    }
}

/// How the symbols of one sector moved against their previous close. The breadth
/// of the sector is the advancers less the decliners, over the total.
#[derive(Clone, Debug, PartialEq, Eq)]
pub struct SectorCount {
    pub sector: String,
    pub advancers: usize,
    pub decliners: usize,
    pub total: usize,
}

/// The counts of a sector.
pub struct Figures {
    pub advancers: nat,
    pub decliners: nat,
    pub total: nat,
}

/// Whether a symbol counts towards a sector: it belongs to it, and its previous
/// close is known.
pub open spec fn counts_towards(
    s: SymbolModel,
    sectors: Map<u32, String>,
    sector: Seq<char>,
) -> bool {
    sectors.contains_key(s.symbol) && sectors[s.symbol]@ == sector && s.prev_close_paise != 0
}

/// The counts of a sector over some symbols.
pub open spec fn figures(
    states: Seq<SymbolModel>,
    sectors: Map<u32, String>,
    sector: Seq<char>,
) -> Figures
    decreases states.len(),
{
    if states.len() == 0 {
        Figures { advancers: 0, decliners: 0, total: 0 }
    } else {
        let s = states.last();
        let f = figures(states.drop_last(), sectors, sector);
        if !counts_towards(s, sectors, sector) {
            f
        } else if s.last_ltp_paise > s.prev_close_paise {
            Figures { advancers: f.advancers + 1, decliners: f.decliners, total: f.total + 1 }
        } else if s.last_ltp_paise < s.prev_close_paise {
            Figures { advancers: f.advancers, decliners: f.decliners + 1, total: f.total + 1 }
        } else {
            Figures { advancers: f.advancers, decliners: f.decliners, total: f.total + 1 }
        }
    }
}

/// Whether a list has the counts of one sector at each place.
pub open spec fn has_figures(
    list: Seq<SectorCount>,
    states: Seq<SymbolModel>,
    sectors: Map<u32, String>,
) -> bool {
    forall|i: int|
        #![trigger list[i]]
        0 <= i < list.len() ==> {
            let f = figures(states, sectors, list[i].sector@);
            list[i].advancers == f.advancers && list[i].decliners == f.decliners
                && list[i].total == f.total && f.total > 0
        }
}

/// Whether a list names each sector once.
pub open spec fn names_once(list: Seq<SectorCount>) -> bool {
    forall|i: int, j: int|
        #![trigger list[i], list[j]]
        0 <= i < list.len() && 0 <= j < list.len() && list[i].sector@ == list[j].sector@ ==> i == j
}

/// Whether a list names a sector.
pub open spec fn names(list: Seq<SectorCount>, sector: Seq<char>) -> bool {
    exists|i: int| 0 <= i < list.len() && #[trigger] list[i].sector@ == sector
}

/// Whether a list is the counts of all sectors that any symbol counts towards, each
/// once.
pub open spec fn tallies(
    list: Seq<SectorCount>,
    states: Seq<SymbolModel>,
    sectors: Map<u32, String>,
) -> bool {
    &&& has_figures(list, states, sectors)
    &&& names_once(list)
    &&& forall|sector: Seq<char>|
        #![trigger names(list, sector)]
        figures(states, sectors, sector).total > 0 ==> names(list, sector)
}

/// Whether the counts of a sector can grow.
spec fn has_room(c: SectorCount) -> bool {
    c.total < usize::MAX && c.advancers <= c.total && c.decliners <= c.total
}

/// One or nothing.
spec fn one_if(b: bool) -> int {
    if b {
        1
    } else {
        0
    }
}

/// Whether a list counts one symbol more, under a sector.
spec fn counted_in(
    before: Seq<SectorCount>,
    after: Seq<SectorCount>,
    sector: Seq<char>,
    advances: bool,
    declines: bool,
) -> bool {
    if names(before, sector) {
        &&& after.len() == before.len()
        &&& forall|k: int|
            #![trigger after[k]]
            0 <= k < after.len() ==> {
                let here = before[k].sector@ == sector;
                &&& after[k].sector@ == before[k].sector@
                &&& after[k].advancers == before[k].advancers + one_if(here && advances)
                &&& after[k].decliners == before[k].decliners + one_if(here && declines)
                &&& after[k].total == before[k].total + one_if(here)
            }
    } else {
        &&& after.len() == before.len() + 1
        &&& forall|k: int| #![trigger after[k]] 0 <= k < before.len() ==> after[k] == before[k]
        &&& after.last().sector@ == sector
        &&& after.last().advancers == one_if(advances)
        &&& after.last().decliners == one_if(declines)
        &&& after.last().total == 1
    }
}

/// Count one symbol more, under a sector.
fn count_in(list: &mut Vec<SectorCount>, sector: &str, advances: bool, declines: bool)
    requires
        names_once(old(list)@),
        forall|k: int| #![trigger old(list)@[k]] 0 <= k < old(list)@.len() ==> has_room(old(list)@[k]),
    ensures
        counted_in(old(list)@, final(list)@, sector@, advances, declines),
{
    let ghost before = list@;
    let up: usize = if advances {
        1
    } else {
        0
    };
    let down: usize = if declines {
        1
    } else {
        0
    };
    let mut i: usize = 0;
    while i < list.len()
        invariant
            i <= list@.len(),
            list@ == before,
            names_once(before),
            forall|k: int| #![trigger before[k]] 0 <= k < before.len() ==> has_room(before[k]),
            forall|k: int| 0 <= k < i ==> #[trigger] before[k].sector@ != sector@,
            up == one_if(advances),
            down == one_if(declines),
            before == old(list)@,
        decreases list@.len() - i,
    {
        assert(has_room(before[i as int]));
        if same_text(list[i].sector.as_str(), sector) {
            let grown = SectorCount {
                sector: String::from_str(sector),
                advancers: list[i].advancers + up,
                decliners: list[i].decliners + down,
                total: list[i].total + 1,
            };
            list.set(i, grown);
            assert(before[i as int].sector@ == sector@);
            assert(names(before, sector@));
            return;
        }
        i = i + 1;
    }
    list.push(
        SectorCount {
            sector: String::from_str(sector),
            advancers: up,
            decliners: down,
            total: 1,
        },
    );
}

/// No more symbols advance and decline than there are, and no more count than are
/// given.
proof fn lemma_figures_bound(states: Seq<SymbolModel>, sectors: Map<u32, String>, sector: Seq<char>)
    ensures
        figures(states, sectors, sector).advancers + figures(states, sectors, sector).decliners
            <= figures(states, sectors, sector).total,
        figures(states, sectors, sector).total <= states.len(),
    decreases states.len(),
{
    if states.len() > 0 {
        lemma_figures_bound(states.drop_last(), sectors, sector);
    }
}

/// Counting the last symbol keeps a list the counts of all sectors.
proof fn lemma_counted(
    before: Seq<SectorCount>,
    after: Seq<SectorCount>,
    states: Seq<SymbolModel>,
    sectors: Map<u32, String>,
    sector: Seq<char>,
    advances: bool,
    declines: bool,
)
    requires
        states.len() > 0,
        tallies(before, states.drop_last(), sectors),
        counts_towards(states.last(), sectors, sector),
        advances == (states.last().last_ltp_paise > states.last().prev_close_paise),
        declines == (states.last().last_ltp_paise < states.last().prev_close_paise),
        counted_in(before, after, sector, advances, declines),
    ensures
        tallies(after, states, sectors),
{
    let rest = states.drop_last();
    assert forall|other: Seq<char>| other != sector implies #[trigger] figures(
        states,
        sectors,
        other,
    ) == figures(rest, sectors, other) by {
        assert(!counts_towards(states.last(), sectors, other));
    }
    let f = figures(rest, sectors, sector);
    lemma_figures_bound(rest, sectors, sector);
    if names(before, sector) {
        assert(has_figures(after, states, sectors)) by {
            assert forall|i: int| #![trigger after[i]] 0 <= i < after.len() implies {
                let g = figures(states, sectors, after[i].sector@);
                after[i].advancers == g.advancers && after[i].decliners == g.decliners
                    && after[i].total == g.total && g.total > 0
            } by {
                assert(before[i].sector@ == after[i].sector@);
            }
        }
        assert forall|i: int, j: int|
            #![trigger after[i], after[j]]
            0 <= i < after.len() && 0 <= j < after.len() && after[i].sector@ == after[j].sector@
                implies i == j by {
            assert(before[i].sector@ == before[j].sector@);
        }
        assert forall|other: Seq<char>|
            #![trigger names(after, other)]
            figures(states, sectors, other).total > 0 implies names(after, other) by {
            assert(names(before, other));
            let i = choose|i: int| 0 <= i < before.len() && #[trigger] before[i].sector@ == other;
            assert(after[i].sector@ == other);
        }
    } else {
        assert(f.total == 0);
        assert(has_figures(after, states, sectors)) by {
            assert forall|i: int| #![trigger after[i]] 0 <= i < after.len() implies {
                let g = figures(states, sectors, after[i].sector@);
                after[i].advancers == g.advancers && after[i].decliners == g.decliners
                    && after[i].total == g.total && g.total > 0
            } by {
                if i < before.len() {
                    assert(before[i].sector@ != sector);
                }
            }
        }
        assert forall|i: int, j: int|
            #![trigger after[i], after[j]]
            0 <= i < after.len() && 0 <= j < after.len() && after[i].sector@ == after[j].sector@
                implies i == j by {
            if i < before.len() {
                assert(before[i].sector@ != sector);
            }
            if j < before.len() {
                assert(before[j].sector@ != sector);
            }
        }
        assert forall|other: Seq<char>|
            #![trigger names(after, other)]
            figures(states, sectors, other).total > 0 implies names(after, other) by {
            if other == sector {
                assert(after[after.len() - 1].sector@ == sector);
            } else {
                assert(names(before, other));
                let i = choose|i: int|
                    0 <= i < before.len() && #[trigger] before[i].sector@ == other;
                assert(after[i].sector@ == other);
            }
        }
    }
}

/// The sector breadth at a time.
#[derive(Clone, Debug, PartialEq, Eq)]
pub struct SectorBreadth {
    pub sectors: Vec<SectorCount>,
    pub ts_ns: u64,
}

/// The moves that the volatility at a time is taken over.
#[derive(Clone, Debug, PartialEq, Eq)]
pub struct VolatilityBreadth {
    pub moves: Vec<PriceMove>,
    pub sample_count: u32,
    pub ts_ns: u64,
}

/// What is published: both or neither.
#[derive(Clone, Debug, PartialEq, Eq)]
pub struct BreadthSnapshot {
    pub sector: Option<SectorBreadth>,
    pub volatility: Option<VolatilityBreadth>,
}

/// The moves of all symbols, one symbol after the other.
pub open spec fn pooled(states: Seq<SymbolModel>) -> Seq<PriceMove>
    decreases states.len(),
{
    if states.len() == 0 {
        Seq::empty()
    } else {
        pooled(states.drop_last()) + states.last().moves
    }
}

/// The state of an aggregator. Symbols stand in the order in which they were first
/// seen.
pub struct BreadthModel {
    pub sectors: Map<u32, String>,
    pub prev_close: Map<u32, i64>,
    pub states: Seq<SymbolModel>,
    pub ticks: u32,
    pub last_publish_ns: u64,
    pub batch_ticks: u32,
    pub batch_interval_ns: u64,
}

/// Whether a symbol was seen.
pub open spec fn seen(states: Seq<SymbolModel>, symbol: u32) -> bool {
    exists|i: int| 0 <= i < states.len() && #[trigger] states[i].symbol == symbol
}

impl BreadthModel {
    /// Whether each symbol stands once, with no more moves than the window holds.
    pub open spec fn sound(self) -> bool {
        &&& forall|i: int, j: int|
            #![trigger self.states[i], self.states[j]]
            0 <= i < self.states.len() && 0 <= j < self.states.len() && self.states[i].symbol
                == self.states[j].symbol ==> i == j
        &&& forall|i: int|
            0 <= i < self.states.len() ==> #[trigger] self.states[i].moves.len()
                <= VOLATILITY_WINDOW
    }

    /// The previous close of a symbol, zero where it is not known.
    pub open spec fn close_of(self, symbol: u32) -> i64 {
        if self.prev_close.contains_key(symbol) {
            self.prev_close[symbol]
        } else {
            0
        }
    }

    /// The symbols after a trade.
    pub open spec fn states_after(self, symbol: u32, ltp_paise: i64) -> Seq<SymbolModel> {
        if seen(self.states, symbol) {
            self.states.map_values(
                |s: SymbolModel|
                    if s.symbol == symbol {
                        s.traded(ltp_paise)
                    } else {
                        s
                    },
            )
        } else {
            self.states.push(
                SymbolModel::unseen(symbol, self.close_of(symbol)).traded(ltp_paise),
            )
        }
    }

    /// The number of ticks in the batch after one more, held at the largest `u32`.
    pub open spec fn ticks_after(self) -> u32 {
        if self.ticks == u32::MAX {
            u32::MAX
        } else {
            (self.ticks + 1) as u32
        }
    }

    /// The time since the last batch; none where the clock went back.
    pub open spec fn elapsed(self, now_ns: u64) -> int {
        if now_ns > self.last_publish_ns {
            now_ns - self.last_publish_ns
        } else {
            0
        }
    }

    /// Whether a tick at a time completes the batch.
    pub open spec fn completes(self, now_ns: u64) -> bool {
        self.ticks_after() >= self.batch_ticks || self.elapsed(now_ns) >= self.batch_interval_ns
    }

    /// The state after a tick at a time.
    pub open spec fn after_tick(self, symbol: u32, ltp_paise: i64, now_ns: u64) -> BreadthModel {
        BreadthModel {
            states: self.states_after(symbol, ltp_paise),
            ticks: if self.completes(now_ns) {
                0
            } else {
                self.ticks_after()
            },
            last_publish_ns: if self.completes(now_ns) {
                now_ns
            } else {
                self.last_publish_ns
            },
            ..self
        }
    }
}

/// Whether a snapshot shows an aggregator's symbols at a time.
pub open spec fn shows(snap: BreadthSnapshot, m: BreadthModel, now_ns: u64) -> bool {
    &&& snap.sector matches Some(s) && tallies(s.sectors@, m.states, m.sectors) && s.ts_ns
        == now_ns
    &&& snap.volatility matches Some(v) && v.moves@ == pooled(m.states) && v.ts_ns == now_ns
        && v.sample_count == if pooled(m.states).len() <= u32::MAX {
        pooled(m.states).len() as int
    } else {
        u32::MAX as int
    }
}

/// Follows symbols, and publishes their breadth in batches.
#[derive(Debug)]
pub struct BreadthAggregator {
    sectors: HashMap<u32, String>,
    prev_close: HashMap<u32, i64>,
    states: Vec<SymbolState>,
    ticks: u32,
    last_publish_ns: u64,
    batch_ticks: u32,
    batch_interval_ns: u64,
}

/// The models of some records.
spec fn models(states: Seq<SymbolState>) -> Seq<SymbolModel> {
    states.map_values(|s: SymbolState| s.model())
}

impl View for BreadthAggregator {
    type V = BreadthModel;

    closed spec fn view(&self) -> BreadthModel {
        BreadthModel {
            sectors: self.sectors@,
            prev_close: self.prev_close@,
            states: models(self.states@),
            ticks: self.ticks,
            last_publish_ns: self.last_publish_ns,
            batch_ticks: self.batch_ticks,
            batch_interval_ns: self.batch_interval_ns,
        }
    }
}

impl BreadthAggregator {
    pub closed spec fn wf(self) -> bool {
        &&& self@.sound()
        &&& forall|i: int| 0 <= i < self.states@.len() ==> #[trigger] self.states@[i].moves.wf()
    }

    /// An aggregator that has seen nothing, started at a time.
    pub fn new(
        sectors: HashMap<u32, String>,
        prev_close: HashMap<u32, i64>,
        now_ns: u64,
    ) -> (a: BreadthAggregator)
        ensures
            a.wf(),
            a@ == (BreadthModel {
                sectors: sectors@,
                prev_close: prev_close@,
                states: Seq::empty(),
                ticks: 0,
                last_publish_ns: now_ns,
                batch_ticks: DEFAULT_BATCH_TICKS,
                batch_interval_ns: DEFAULT_BATCH_INTERVAL,
            }),
    {
        Self::with_batch_thresholds(
            sectors,
            prev_close,
            DEFAULT_BATCH_TICKS,
            DEFAULT_BATCH_INTERVAL,
            now_ns,
        )
    }

    /// An aggregator with batches of another size.
    pub fn with_batch_thresholds(
        sectors: HashMap<u32, String>,
        prev_close: HashMap<u32, i64>,
        batch_ticks: u32,
        batch_interval_ns: u64,
        now_ns: u64,
    ) -> (a: BreadthAggregator)
        ensures
            a.wf(),
            a@ == (BreadthModel {
                sectors: sectors@,
                prev_close: prev_close@,
                states: Seq::empty(),
                ticks: 0,
                last_publish_ns: now_ns,
                batch_ticks,
                batch_interval_ns,
            }),
    {
        let a = BreadthAggregator {
            sectors,
            prev_close,
            states: Vec::new(),
            ticks: 0,
            last_publish_ns: now_ns,
            batch_ticks,
            batch_interval_ns,
        };
        assert(models(a.states@) =~= Seq::empty());
        a
    }

    /// Number of symbols seen.
    pub fn tracked_symbols(&self) -> (n: usize)
        ensures
            n == self@.states.len(),
    {
        self.states.len()
    }

    /// Number of ticks in the batch so far.
    pub fn ticks_in_batch(&self) -> (n: u32)
        ensures
            n == self@.ticks,
    {
        self.ticks
    }

    /// The place of a symbol's record.
    fn place_of(&self, symbol: u32) -> (place: Option<usize>)
        ensures
            match place {
                Some(i) => i < self.states@.len() && self.states@[i as int].symbol == symbol,
                None => !seen(self@.states, symbol),
            },
    {
        let mut i: usize = 0;
        while i < self.states.len()
            invariant
                i <= self.states@.len(),
                forall|k: int| 0 <= k < i ==> #[trigger] self.states@[k].symbol != symbol,
            decreases self.states@.len() - i,
        {
            if self.states[i].symbol == symbol {
                return Some(i);
            }
            i = i + 1;
        }
        proof {
            if seen(self@.states, symbol) {
                let k = choose|k: int|
                    0 <= k < self@.states.len() && #[trigger] self@.states[k].symbol == symbol;
                assert(self.states@[k].symbol != symbol);
            }
        }
        None
    }

    /// The previous close of a symbol, zero where it is not known.
    fn close_of(&self, symbol: u32) -> (paise: i64)
        ensures
            paise == self@.close_of(symbol),
    {
        broadcast use vstd::std_specs::hash::group_hash_axioms;

        match self.prev_close.get(&symbol) {
            Some(paise) => *paise,
            None => 0,
        }
    }

    /// The sector of a symbol.
    fn sector_of(&self, symbol: u32) -> (sector: Option<&String>)
        ensures
            match sector {
                Some(s) => self@.sectors.contains_key(symbol) && *s == self@.sectors[symbol],
                None => !self@.sectors.contains_key(symbol),
            },
    {
        broadcast use vstd::std_specs::hash::group_hash_axioms;

        self.sectors.get(&symbol)
    }

    /// Bring the record of a symbol up to date.
    fn record_trade(&mut self, symbol: u32, ltp_paise: i64)
        requires
            old(self).wf(),
        ensures
            final(self).wf(),
            final(self)@ == (BreadthModel {
                states: old(self)@.states_after(symbol, ltp_paise),
                ..old(self)@
            }),
    {
        let ghost before = self@;
        match self.place_of(symbol) {
            Some(i) => {
                let ghost held = self.states@;
                assert(before.states[i as int].symbol == symbol);
                assert(seen(before.states, symbol));
                self.states[i].trade(ltp_paise);
                proof {
                    assert forall|k: int| 0 <= k < held.len() && k != i implies held[k].symbol
                        != symbol by {
                        assert(before.states[k].symbol == held[k].symbol);
                        assert(before.states[i as int].symbol == held[i as int].symbol);
                    }
                    assert(models(self.states@) =~= before.states_after(symbol, ltp_paise));
                }
            },
            None => {
                let close: i64 = self.close_of(symbol);
                let mut s = SymbolState::new(symbol, close);
                s.trade(ltp_paise);
                let ghost added = s.model();
                self.states.push(s);
                proof {
                    assert(models(self.states@) =~= before.states.push(added));
                    assert forall|k: int|
                        0 <= k < before.states.len() implies #[trigger] before.states[k].symbol
                        != symbol by {
                        assert(!seen(before.states, symbol));
                    }
                }
            },
        }
        proof {
            let now = self@;
            assert forall|k: int| 0 <= k < now.states.len() implies #[trigger] now.states[k].moves.len()
                <= VOLATILITY_WINDOW by {
                assert(self.states@[k].moves.wf());
            }
            assert forall|a: int, b: int|
                #![trigger now.states[a], now.states[b]]
                0 <= a < now.states.len() && 0 <= b < now.states.len() && now.states[a].symbol
                    == now.states[b].symbol implies a == b by {
                if a < before.states.len() && b < before.states.len() {
                    assert(before.states[a].symbol == now.states[a].symbol);
                    assert(before.states[b].symbol == now.states[b].symbol);
                }
            }
        }
    }

    /// Take in a tick at a time. Returns what is to be published where it completes
    /// the batch.
    pub fn on_tick(&mut self, tick: &Tick, now_ns: u64) -> (snap: BreadthSnapshot)
        requires
            old(self).wf(),
        ensures
            final(self).wf(),
            final(self)@ == old(self)@.after_tick(tick.symbol, tick.ltp_paise, now_ns),
            if old(self)@.completes(now_ns) {
                shows(snap, final(self)@, now_ns)
            } else {
                snap == (BreadthSnapshot { sector: None, volatility: None })
            },
    {
        self.record_trade(tick.symbol, tick.ltp_paise);
        self.ticks = if self.ticks == u32::MAX {
            u32::MAX
        } else {
            self.ticks + 1
        };
        if self.should_publish(now_ns) {
            let snap = self.snapshot(now_ns);
            self.ticks = 0;
            self.last_publish_ns = now_ns;
            snap
        } else {
            BreadthSnapshot { sector: None, volatility: None }
        }
    }

    /// Whether the batch is complete.
    fn should_publish(&self, now_ns: u64) -> (yes: bool)
        ensures
            yes == (self@.ticks >= self@.batch_ticks || self@.elapsed(now_ns)
                >= self@.batch_interval_ns),
    {
        let elapsed: u64 = if now_ns > self.last_publish_ns {
            now_ns - self.last_publish_ns
        } else {
            0
        };
        self.ticks >= self.batch_ticks || elapsed >= self.batch_interval_ns
    }

    /// The breadth now, whatever the state of the batch.
    pub fn snapshot(&self, now_ns: u64) -> (snap: BreadthSnapshot)
        requires
            self.wf(),
        ensures
            shows(snap, self@, now_ns),
    {
        BreadthSnapshot {
            sector: Some(self.compute_sector(now_ns)),
            volatility: Some(self.compute_volatility(now_ns)),
        }
    }

    /// The counts of all sectors.
    fn compute_sector(&self, now_ns: u64) -> (breadth: SectorBreadth)
        ensures
            tallies(breadth.sectors@, self@.states, self@.sectors),
            breadth.ts_ns == now_ns,
    {
        let ghost states = self@.states;
        let ghost sectors = self@.sectors;
        let mut list: Vec<SectorCount> = Vec::new();
        let mut i: usize = 0;
        while i < self.states.len()
            invariant
                i <= self.states@.len(),
                states == self@.states,
                states.len() == self.states@.len(),
                sectors == self@.sectors,
                tallies(list@, states.take(i as int), sectors),
            decreases self.states@.len() - i,
        {
            let s = &self.states[i];
            let ghost model = s.model();
            proof {
                assert(states.take(i + 1).drop_last() =~= states.take(i as int));
                assert(states.take(i + 1).last() == model);
            }
            match self.sector_of(s.symbol) {
                Some(name) if s.prev_close_paise != 0 => {
                    let advances = s.last_ltp_paise > s.prev_close_paise;
                    let declines = s.last_ltp_paise < s.prev_close_paise;
                    let ghost before = list@;
                    proof {
                        assert forall|k: int|
                            #![trigger list@[k]]
                            0 <= k < list@.len() implies has_room(list@[k]) by {
                            lemma_figures_bound(states.take(i as int), sectors, list@[k].sector@);
                        }
                    }
                    count_in(&mut list, name.as_str(), advances, declines);
                    proof {
                        lemma_counted(
                            before,
                            list@,
                            states.take(i + 1),
                            sectors,
                            name@,
                            advances,
                            declines,
                        );
                    }
                },
                _ => {
                    assert forall|sector: Seq<char>|
                        #![trigger figures(states.take(i + 1), sectors, sector)]
                        figures(states.take(i + 1), sectors, sector) == figures(
                            states.take(i as int),
                            sectors,
                            sector,
                        ) by {}
                },
            }
            i = i + 1;
        }
        assert(states.take(i as int) =~= states);
        SectorBreadth { sectors: list, ts_ns: now_ns }
    }

    /// The moves of all symbols.
    fn compute_volatility(&self, now_ns: u64) -> (breadth: VolatilityBreadth)
        requires
            self.wf(),
        ensures
            breadth.moves@ == pooled(self@.states),
            breadth.sample_count == if pooled(self@.states).len() <= u32::MAX {
                pooled(self@.states).len() as int
            } else {
                u32::MAX as int
            },
            breadth.ts_ns == now_ns,
    {
        let ghost states = self@.states;
        let mut moves: Vec<PriceMove> = Vec::new();
        let mut i: usize = 0;
        while i < self.states.len()
            invariant
                i <= self.states@.len(),
                states == self@.states,
                states.len() == self.states@.len(),
                moves@ == pooled(states.take(i as int)),
            decreases self.states@.len() - i,
        {
            let window = &self.states[i].moves;
            let ghost before = moves@;
            let mut k: usize = 0;
            let n: usize = window.len();
            assert(before + window@.take(0) =~= before);
            while k < n
                invariant
                    k <= n,
                    n == window@.len(),
                    moves@ == before + window@.take(k as int),
                decreases n - k,
            {
                moves.push(*window.get(k));
                assert(window@.take(k + 1) =~= window@.take(k as int).push(window@[k as int]));
                k = k + 1;
            }
            proof {
                assert(window@.take(k as int) =~= window@);
                assert(states.take(i + 1).drop_last() =~= states.take(i as int));
                assert(states.take(i + 1).last().moves == window@);
            }
            i = i + 1;
        }
        assert(states.take(i as int) =~= states);
        let sample_count: u32 = if moves.len() as u64 <= u32::MAX as u64 {
            moves.len() as u32
        } else {
            u32::MAX
        };
        VolatilityBreadth { moves, sample_count, ts_ns: now_ns }
    }
}

/// The breadth of a sector lies between minus one and one: the advancers and the
/// decliners are among its symbols.
pub proof fn law_breadth_is_a_share(
    states: Seq<SymbolModel>,
    sectors: Map<u32, String>,
    sector: Seq<char>,
)
    ensures
        figures(states, sectors, sector).advancers + figures(states, sectors, sector).decliners
            <= figures(states, sectors, sector).total,
        -(figures(states, sectors, sector).total as int) <= figures(
            states,
            sectors,
            sector,
        ).advancers - figures(states, sectors, sector).decliners <= figures(
            states,
            sectors,
            sector,
        ).total,
{
    lemma_figures_bound(states, sectors, sector);
}

/// A symbol without a sector or without a previous close counts nowhere.
pub proof fn law_unknown_close_is_left_out(
    states: Seq<SymbolModel>,
    s: SymbolModel,
    sectors: Map<u32, String>,
    sector: Seq<char>,
)
    requires
        s.prev_close_paise == 0 || !sectors.contains_key(s.symbol),
    ensures
        figures(states.push(s), sectors, sector) == figures(states, sectors, sector),
{
    assert(states.push(s).drop_last() =~= states);
}

/// A symbol after trades at a row of prices.
pub open spec fn after_prices(s: SymbolModel, prices: Seq<i64>) -> SymbolModel
    decreases prices.len(),
{
    if prices.len() == 0 {
        s
    } else {
        after_prices(s, prices.drop_last()).traded(prices.last())
    }
}

/// All moves from one price to the next in a row, but for those that start from
/// zero.
pub open spec fn moves_of(prices: Seq<i64>) -> Seq<PriceMove>
    decreases prices.len(),
{
    if prices.len() < 2 {
        Seq::empty()
    } else {
        let from_paise = prices[prices.len() - 2];
        let earlier = moves_of(prices.drop_last());
        if from_paise != 0 {
            earlier.push(PriceMove { from_paise, to_paise: prices.last() })
        } else {
            earlier
        }
    }
}

/// The window of a symbol holds the latest moves of all its prices.
pub proof fn law_window_holds_latest_moves(symbol: u32, close: i64, prices: Seq<i64>)
    ensures
        after_prices(SymbolModel::unseen(symbol, close), prices).moves == latest(
            moves_of(prices),
            VOLATILITY_WINDOW as nat,
        ),
        prices.len() > 0 ==> after_prices(
            SymbolModel::unseen(symbol, close),
            prices,
        ).prev_ltp_paise == Some(prices.last()),
        prices.len() == 0 ==> after_prices(
            SymbolModel::unseen(symbol, close),
            prices,
        ).prev_ltp_paise is None,
    decreases prices.len(),
{
    let s = SymbolModel::unseen(symbol, close);
    let w = VOLATILITY_WINDOW as nat;
    if prices.len() > 0 {
        let rest = prices.drop_last();
        law_window_holds_latest_moves(symbol, close, rest);
        if prices.len() >= 2 && rest.last() != 0 {
            let m = PriceMove { from_paise: rest.last(), to_paise: prices.last() };
            let all = moves_of(rest);
            assert(latest(latest(all, w).push(m), w) =~= latest(all.push(m), w));
        }
    }
}

} // verus!
