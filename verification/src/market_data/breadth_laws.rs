//! What breadth says of the trades that it was taken from.
use crate::market_data::breadth::{
    after_prices, counts_towards, figures, names, pooled, seen, shows, tallies, BreadthModel,
    BreadthSnapshot, SectorCount, SymbolModel, DEFAULT_BATCH_INTERVAL, DEFAULT_BATCH_TICKS,
};
use vstd::prelude::*;

verus! {

/// After any trades, a symbol is known by its latest price, and by the close that it
/// started with.
pub proof fn law_latest_price_counts(symbol: u32, close: i64, prices: Seq<i64>)
    requires
        prices.len() > 0,
    ensures
        after_prices(SymbolModel::unseen(symbol, close), prices).last_ltp_paise == prices.last(),
        after_prices(SymbolModel::unseen(symbol, close), prices).prev_close_paise == close,
        after_prices(SymbolModel::unseen(symbol, close), prices).symbol == symbol,
    decreases prices.len(),
{
    if prices.len() > 1 {
        law_latest_price_counts(symbol, close, prices.drop_last());
    } else {
        let s = SymbolModel::unseen(symbol, close);
        assert(after_prices(s, prices.drop_last()) == s);
    }
}

/// The moves of a symbol that never traded at zero are those from one price to the
/// next, the last sixty of them.
pub proof fn law_moves_join_prices(symbol: u32, close: i64, prices: Seq<i64>)
    requires
        prices.len() > 0,
        forall|i: int| 0 <= i < prices.len() ==> #[trigger] prices[i] != 0,
    ensures
        ({
            let moves = after_prices(SymbolModel::unseen(symbol, close), prices).moves;
            let skipped = prices.len() - 1 - moves.len();
            &&& moves.len() == if prices.len() <= 60 {
                prices.len() - 1
            } else {
                60
            }
            &&& forall|k: int|
                0 <= k < moves.len() ==> (#[trigger] moves[k]).from_paise == prices[skipped + k]
                    && moves[k].to_paise == prices[skipped + k + 1]
        }),
        after_prices(SymbolModel::unseen(symbol, close), prices).prev_ltp_paise == Some(
            prices.last(),
        ),
    decreases prices.len(),
{
    let rest = prices.drop_last();
    if prices.len() > 1 {
        assert forall|i: int| 0 <= i < rest.len() implies #[trigger] rest[i] != 0 by {
            assert(rest[i] == prices[i]);
        }
        law_moves_join_prices(symbol, close, rest);
        assert(rest.last() == prices[prices.len() - 2]);
    } else {
        let s = SymbolModel::unseen(symbol, close);
        assert(after_prices(s, rest) == s);
    }
}

/// Whether a symbol belongs to a sector and has a close to be held against.
pub open spec fn in_sector(s: SymbolModel, sectors: Map<u32, String>, sector: Seq<char>) -> bool {
    sectors.contains_key(s.symbol) && sectors[s.symbol]@ == sector && s.prev_close_paise != 0
}

/// The symbols of a sector that stand above their close.
pub open spec fn risen(
    states: Seq<SymbolModel>,
    sectors: Map<u32, String>,
    sector: Seq<char>,
) -> Seq<SymbolModel> {
    states.filter(
        |s: SymbolModel| in_sector(s, sectors, sector) && s.last_ltp_paise > s.prev_close_paise,
    )
}

/// The symbols of a sector that stand below their close.
pub open spec fn fallen(
    states: Seq<SymbolModel>,
    sectors: Map<u32, String>,
    sector: Seq<char>,
) -> Seq<SymbolModel> {
    states.filter(
        |s: SymbolModel| in_sector(s, sectors, sector) && s.last_ltp_paise < s.prev_close_paise,
    )
}

/// The symbols of a sector.
pub open spec fn members(
    states: Seq<SymbolModel>,
    sectors: Map<u32, String>,
    sector: Seq<char>,
) -> Seq<SymbolModel> {
    states.filter(|s: SymbolModel| in_sector(s, sectors, sector))
}

/// The advancers of a sector are its symbols above their close, the decliners those
/// below, and the total is all of them.
pub proof fn law_sectors_count_their_symbols(
    states: Seq<SymbolModel>,
    sectors: Map<u32, String>,
    sector: Seq<char>,
)
    ensures
        figures(states, sectors, sector).advancers == risen(states, sectors, sector).len(),
        figures(states, sectors, sector).decliners == fallen(states, sectors, sector).len(),
        figures(states, sectors, sector).total == members(states, sectors, sector).len(),
    decreases states.len(),
{
    reveal(Seq::filter);
    if states.len() > 0 {
        law_sectors_count_their_symbols(states.drop_last(), sectors, sector);
        assert(counts_towards(states.last(), sectors, sector) == in_sector(
            states.last(),
            sectors,
            sector,
        ));
    }
}

/// A snapshot has each sector of a known symbol once, with the counts of its symbols,
/// and the moves of all symbols, as of the time given.
pub proof fn law_snapshot_shows_all_sectors(
    snap: BreadthSnapshot,
    m: BreadthModel,
    now_ns: u64,
    i: int,
)
    requires
        shows(snap, m, now_ns),
        0 <= i < m.states.len(),
        m.states[i].prev_close_paise != 0,
        m.sectors.contains_key(m.states[i].symbol),
    ensures
        snap.sector matches Some(s) && snap.volatility matches Some(v) && {
            &&& s.ts_ns == now_ns && v.ts_ns == now_ns
            &&& exists|k: int|
                0 <= k < s.sectors@.len() && (#[trigger] s.sectors@[k]).sector@
                    == m.sectors[m.states[i].symbol]@
            &&& forall|k: int|
                0 <= k < s.sectors@.len() ==> {
                    let row = #[trigger] s.sectors@[k];
                    &&& row.advancers == risen(m.states, m.sectors, row.sector@).len()
                    &&& row.decliners == fallen(m.states, m.sectors, row.sector@).len()
                    &&& row.total == members(m.states, m.sectors, row.sector@).len()
                    &&& row.total > 0
                }
            &&& forall|a: int, b: int|
                0 <= a < b < s.sectors@.len() ==> (#[trigger] s.sectors@[a]).sector@ != (
                #[trigger] s.sectors@[b]).sector@
            &&& v.moves@.len() <= u32::MAX ==> v.sample_count == v.moves@.len()
        },
{
    let list = snap.sector->0.sectors@;
    let sector = m.sectors[m.states[i].symbol]@;
    assert forall|k: int| 0 <= k < list.len() implies {
        let row = #[trigger] list[k];
        &&& row.advancers == risen(m.states, m.sectors, row.sector@).len()
        &&& row.decliners == fallen(m.states, m.sectors, row.sector@).len()
        &&& row.total == members(m.states, m.sectors, row.sector@).len()
        &&& row.total > 0
    } by {
        law_sectors_count_their_symbols(m.states, m.sectors, list[k].sector@);
    }
    law_sectors_count_their_symbols(m.states, m.sectors, sector);
    let within = |s: SymbolModel| in_sector(s, m.sectors, sector);
    m.states.lemma_filter_contains(within, i);
    assert(members(m.states, m.sectors, sector).contains(m.states[i]));
    assert(figures(m.states, m.sectors, sector).total > 0);
    assert(names(list, sector));
}

/// The pool has the moves of one symbol after those of the other.
pub proof fn law_pool_has_the_moves_of_all(states: Seq<SymbolModel>, s: SymbolModel)
    ensures
        pooled(Seq::<SymbolModel>::empty()).len() == 0,
        pooled(states.push(s)) == pooled(states) + s.moves,
{
    assert(states.push(s).drop_last() =~= states);
}

/// A tick moves the price of its symbol and of no other, and leaves every close,
/// sector and threshold. A symbol that comes up first joins with the close that is
/// known of it.
pub proof fn law_tick_moves_its_symbol(m: BreadthModel, symbol: u32, ltp_paise: i64, now_ns: u64)
    requires
        m.sound(),
    ensures
        ({
            let after = m.after_tick(symbol, ltp_paise, now_ns);
            &&& exists|k: int|
                0 <= k < after.states.len() && (#[trigger] after.states[k]).symbol == symbol
            &&& forall|k: int|
                0 <= k < after.states.len() && (#[trigger] after.states[k]).symbol == symbol
                    ==> after.states[k].last_ltp_paise == ltp_paise
                    && after.states[k].prev_ltp_paise == Some(ltp_paise)
            &&& after.states.len() >= m.states.len()
            &&& forall|k: int|
                0 <= k < m.states.len() ==> (#[trigger] after.states[k]).symbol
                    == m.states[k].symbol && after.states[k].prev_close_paise
                    == m.states[k].prev_close_paise
            &&& forall|k: int|
                0 <= k < m.states.len() && (#[trigger] m.states[k]).symbol != symbol
                    ==> after.states[k] == m.states[k]
            &&& forall|k: int|
                m.states.len() <= k < after.states.len() ==> (#[trigger] after.states[k]).symbol
                    == symbol && after.states[k].moves.len() == 0
                    && after.states[k].prev_close_paise == if m.prev_close.contains_key(symbol) {
                    m.prev_close[symbol]
                } else {
                    0
                }
            &&& after.sectors == m.sectors && after.prev_close == m.prev_close
            &&& after.batch_ticks == m.batch_ticks && after.batch_interval_ns
                == m.batch_interval_ns
        }),
{
    let after = m.after_tick(symbol, ltp_paise, now_ns);
    if seen(m.states, symbol) {
        let k = choose|k: int| 0 <= k < m.states.len() && #[trigger] m.states[k].symbol == symbol;
        assert(after.states[k].symbol == symbol);
    } else {
        assert(after.states[m.states.len() as int].symbol == symbol);
        assert forall|k: int| 0 <= k < m.states.len() implies #[trigger] m.states[k].symbol
            != symbol by {
            assert(!seen(m.states, symbol));
        }
    }
}

/// A batch is published once it has its number of ticks or its time has passed, and
/// the next one starts from nothing.
pub proof fn law_batches_are_published_in_time(
    m: BreadthModel,
    symbol: u32,
    ltp_paise: i64,
    now_ns: u64,
)
    requires
        m.ticks < u32::MAX,
        m.batch_interval_ns > 0,
    ensures
        m.completes(now_ns) <==> (m.ticks + 1 >= m.batch_ticks || now_ns - m.last_publish_ns
            >= m.batch_interval_ns),
        m.completes(now_ns) ==> m.after_tick(symbol, ltp_paise, now_ns).ticks == 0
            && m.after_tick(symbol, ltp_paise, now_ns).last_publish_ns == now_ns,
        !m.completes(now_ns) ==> m.after_tick(symbol, ltp_paise, now_ns).ticks == m.ticks + 1
            && m.after_tick(symbol, ltp_paise, now_ns).last_publish_ns == m.last_publish_ns,
{
}

/// Where no other thresholds are given, a batch waits for a hundred ticks or a quarter
/// of a second, whichever comes first.
pub proof fn law_usual_batches(m: BreadthModel, now_ns: u64)
    requires
        m.batch_ticks == DEFAULT_BATCH_TICKS,
        m.batch_interval_ns == DEFAULT_BATCH_INTERVAL,
    ensures
        m.completes(now_ns) <==> (m.ticks >= 99 || now_ns - m.last_publish_ns >= 250_000_000),
{
}

/// A tally has one entry for each sector that any symbol counts towards, with that
/// sector's figures.
pub proof fn law_tallies_have_every_sector_once(
    list: Seq<SectorCount>,
    states: Seq<SymbolModel>,
    sectors: Map<u32, String>,
    sector: Seq<char>,
    i: int,
    j: int,
)
    requires
        tallies(list, states, sectors),
    ensures
        0 <= i < j < list.len() ==> list[i].sector@ != list[j].sector@,
        figures(states, sectors, sector).total > 0 ==> exists|k: int|
            0 <= k < list.len() && (#[trigger] list[k]).sector@ == sector,
        0 <= i < list.len() ==> list[i].total == figures(states, sectors, list[i].sector@).total
            && list[i].advancers == figures(states, sectors, list[i].sector@).advancers
            && list[i].decliners == figures(states, sectors, list[i].sector@).decliners,
{
    if figures(states, sectors, sector).total > 0 {
        assert(names(list, sector));
    }
}

/// A symbol that did not trade has no price and no moves.
pub proof fn law_unseen_symbols_have_no_price(symbol: u32, close: i64)
    ensures
        SymbolModel::unseen(symbol, close).symbol == symbol,
        SymbolModel::unseen(symbol, close).last_ltp_paise == 0,
        SymbolModel::unseen(symbol, close).prev_close_paise == close,
        SymbolModel::unseen(symbol, close).prev_ltp_paise is None,
        SymbolModel::unseen(symbol, close).moves.len() == 0,
{
}

} // verus!
