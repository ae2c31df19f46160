//! What becomes of a tick on its way from the feed, in terms of the tick itself.
use crate::base::schema::{Stage, Tick};
use crate::base::types::CorrelationId;
use crate::base::wire::{be_bytes, le_bytes, lemma_le_len};
use crate::market_data::adapter::{backoff_ms, AdapterModel};
use crate::market_data::breadth::BreadthModel;
use crate::market_data::distributor::{has_followers, DistributorModel};
use crate::market_data::engine::{
    breadth_taken, handed_on, BreadthByproduct, TICK_INGEST_BUDGET_NS,
};
use crate::market_data::error::MarketDataError;
use crate::market_data::interner::InternerModel;
use crate::market_data::normalizer::{normalises, Exchange};
use crate::market_data::protocol::{reads_as, CanonicalJsonTick, RawTick};
use vstd::prelude::*;

verus! {

/// The first wait is a tenth of a second, each of the next eight is twice the one
/// before, and all that follow are half a minute.
pub proof fn law_waits_double_up_to_half_a_minute(attempt: nat)
    ensures
        attempt == 0 ==> backoff_ms(attempt) == 100,
        attempt < 8 ==> backoff_ms(attempt + 1) == 2 * backoff_ms(attempt),
        attempt >= 9 ==> backoff_ms(attempt) == 30_000,
{
    reveal_with_fuel(backoff_ms, 10);
}

/// Giving a stream up closes the connection and counts one attempt more; a dial that
/// succeeds opens it and forgets the attempts, and one that fails changes nothing. The
/// notices name the source: the first is of the loss, with its reason and the attempts
/// so far, the second of the return.
pub proof fn law_connections_drop_and_return(m: AdapterModel, at: Seq<char>, attempt: u32)
    requires
        m.attempts < u32::MAX,
    ensures
        !m.dropped().connected && m.dropped().attempts == m.attempts + 1,
        m.dropped().source == m.source && m.dropped().url == m.url,
        m.dialed(true).connected && m.dialed(true).attempts == 0,
        m.dialed(true).source == m.source && m.dialed(true).url == m.url,
        m.dialed(false) == m,
        m.drop_notice(at).status is Disconnected && m.drop_notice(at).reason is Some,
        m.drop_notice(at).source == m.source && m.drop_notice(at).attempt == m.attempts,
        m.drop_notice(at).at == at,
        m.return_notice(attempt, at).status is Reconnected,
        m.return_notice(attempt, at).reason is None,
        m.return_notice(attempt, at).source == m.source,
        m.return_notice(attempt, at).attempt == attempt && m.return_notice(attempt, at).at == at,
{
}

/// A raw tick keeps its prices and quantities; its time turns from milliseconds to
/// nanoseconds, and it gets the number of its symbol and exchange, the time of arrival
/// and its correlation id, the most significant byte first.
pub proof fn law_normalising_keeps_the_figures(
    raw: RawTick,
    exchange: Exchange,
    symbol: u32,
    id: CorrelationId,
    recv_ns: u64,
    tick: Tick,
)
    requires
        normalises(raw, exchange, symbol, id, recv_ns, tick),
    ensures
        tick.symbol == symbol,
        tick.ltp_paise == raw.ltp_paise,
        tick.bid_paise == raw.bid_paise,
        tick.ask_paise == raw.ask_paise,
        tick.ltq == raw.ltq,
        tick.total_buy_qty == raw.total_buy_qty,
        tick.total_sell_qty == raw.total_sell_qty,
        raw.ts_exchange_ms * 1_000_000 <= u64::MAX ==> tick.ts_exchange_ns == raw.ts_exchange_ms
            * 1_000_000,
        raw.ts_exchange_ms * 1_000_000 > u64::MAX ==> tick.ts_exchange_ns == u64::MAX,
        tick.ts_recv_ns == recv_ns,
        exchange is Nse ==> tick.exchange == 0,
        exchange is Bse ==> tick.exchange == 1,
        tick.correlation_id@.len() == 16,
        tick.correlation_id@[15] == id.0 % 256,
        tick.correlation_id@[14] == (id.0 / 256) % 256,
{
    let n = id.0 as nat;
    lemma_le_len(n, 16);
    lemma_le_len(n / 256, 15);
    lemma_le_len(n / 256 / 256, 14);
    assert(le_bytes(n, 16)[0] == (n % 256) as u8);
    assert(le_bytes(n / 256, 15)[0] == ((n / 256) % 256) as u8);
    assert(le_bytes(n, 16)[1] == le_bytes(n / 256, 15)[0]);
    assert(be_bytes(n, 16)[15] == le_bytes(n, 16)[0]);
    assert(be_bytes(n, 16)[14] == le_bytes(n, 16)[1]);
}

/// The first symbol gets the number one, and each new one the number after the last; a
/// symbol that is known keeps its number.
pub proof fn law_symbols_are_numbered_from_one(m: InternerModel, symbol: Seq<char>)
    ensures
        InternerModel::fresh().next == 1,
        InternerModel::fresh().ids.dom() == Set::<Seq<char>>::empty(),
        !m.ids.contains_key(symbol) ==> m.after(symbol).ids.contains_key(symbol) && m.after(
            symbol,
        ).ids[symbol] == m.next,
        !m.ids.contains_key(symbol) && m.next < u32::MAX ==> m.after(symbol).next == m.next + 1,
        m.ids.contains_key(symbol) ==> m.after(symbol) == m,
        forall|other: Seq<char>|
            other != symbol ==> (#[trigger] m.after(symbol).ids.contains_key(other)
                <==> m.ids.contains_key(other)),
{
}

/// A tick that is handed on joins what the channel of its symbol took, as the last;
/// no other channel takes it, and none is followed or opened by it. Where nobody ever
/// followed the symbol, nothing changes.
pub proof fn law_ticks_go_to_their_followers(
    before: DistributorModel,
    after: DistributorModel,
    tick: Tick,
    other: u32,
)
    requires
        handed_on(before, after, tick),
    ensures
        !(before.channels.contains_key(tick.symbol) && before.channels[tick.symbol].followed)
            ==> after == before,
        after.channels.dom() =~= before.channels.dom(),
        other != tick.symbol && before.channels.contains_key(other) ==> after.channels[other]
            == before.channels[other],
        before.channels.contains_key(tick.symbol) ==> {
            let was = before.channels[tick.symbol];
            let is = after.channels[tick.symbol];
            &&& is.taken == was.taken || is.taken == was.taken.push(tick)
            &&& is.id == was.id && is.followed == was.followed
        },
        after.capacity == before.capacity,
        has_followers(before.channels, tick.symbol) ==> before.took(
            tick,
        ).channels[tick.symbol].taken == before.channels[tick.symbol].taken.push(tick),
        before.channels.contains_key(tick.symbol) ==> before.followed(
            tick.symbol,
        ).channels[tick.symbol].followed,
{
}

/// A tick counts towards breadth under its symbol and at its last price.
pub proof fn law_ticks_count_towards_breadth(
    before: BreadthModel,
    after: BreadthModel,
    tick: Tick,
    now_ns: u64,
    by: BreadthByproduct,
)
    requires
        breadth_taken(before, after, tick, now_ns, by),
    ensures
        after == before.after_tick(tick.symbol, tick.ltp_paise, now_ns),
        before.completes(now_ns) <==> by.sector is Some,
        before.completes(now_ns) <==> by.volatility is Some,
{
}

/// A decoded payload is the tick in it, field by field; one that could not be decoded
/// is an error under the name of the protocol, with what the decoder said.
pub proof fn law_payloads_are_read_as_they_are(
    protocol: Seq<char>,
    decoded: Result<CanonicalJsonTick, String>,
    parsed: Result<RawTick, MarketDataError>,
)
    requires
        reads_as(protocol, decoded, parsed),
    ensures
        decoded is Ok <==> parsed is Ok,
        decoded matches Ok(j) ==> (parsed matches Ok(raw) && raw.symbol@ == j.symbol@
            && raw.ltp_paise == j.ltp && raw.bid_paise == j.bid && raw.ask_paise == j.ask && raw.ltq
            == j.ltq && raw.total_buy_qty == j.total_buy_qty && raw.total_sell_qty
            == j.total_sell_qty && raw.ts_exchange_ms == j.ts_exchange_ms),
        decoded matches Err(fault) ==> (parsed matches Err(MarketDataError::Parse {
            protocol_name,
            message,
        }) && protocol_name@ == protocol && message@ == fault@),
{
}

/// An error says in words what it was told, at the end.
pub proof fn law_errors_repeat_what_they_were_told(e: MarketDataError)
    ensures
        e matches MarketDataError::WebSocket { source_name, message } ==> e.words().len()
            > message@.len() && e.words().skip(e.words().len() - message@.len()) == message@,
        e matches MarketDataError::Parse { protocol_name, message } ==> e.words().len()
            > message@.len() && e.words().skip(e.words().len() - message@.len()) == message@,
        e matches MarketDataError::Bus(m) ==> e.words().skip(e.words().len() - m@.len()) == m@,
        e matches MarketDataError::Config(m) ==> e.words().skip(e.words().len() - m@.len()) == m@,
{
    reveal_strlit("websocket error on source `");
    reveal_strlit("protocol `");
    match e {
        MarketDataError::WebSocket { source_name, message } => {
            assert(e.words().skip(e.words().len() - message@.len()) =~= message@);
        },
        MarketDataError::Parse { protocol_name, message } => {
            assert(e.words().skip(e.words().len() - message@.len()) =~= message@);
        },
        MarketDataError::Bus(m) => {
            assert(e.words().skip(e.words().len() - m@.len()) =~= m@);
        },
        MarketDataError::Config(m) => {
            assert(e.words().skip(e.words().len() - m@.len()) =~= m@);
        },
        _ => {},
    }
}

/// The stages are numbered in the order in which a tick goes through them, and each
/// has a name of its own. The first has two milliseconds.
pub proof fn law_stages_are_in_order(a: Stage, b: Stage)
    ensures
        Stage::TickIngest.number() == 0,
        Stage::FeatureExtraction.number() == 1,
        Stage::AiScoringFetch.number() == 2,
        Stage::RiskCheck.number() == 3,
        Stage::ExecutionRouting.number() == 4,
        Stage::BrokerSubmit.number() == 5,
        a.name() == b.name() ==> a == b,
        TICK_INGEST_BUDGET_NS == 2_000_000,
{
    reveal_strlit("TickIngest");
    reveal_strlit("FeatureExtraction");
    reveal_strlit("AiScoringFetch");
    reveal_strlit("RiskCheck");
    reveal_strlit("ExecutionRouting");
    reveal_strlit("BrokerSubmit");
    if a.name() == b.name() {
        assert(a.name().len() == b.name().len());
        assert(a.name()[0] == b.name()[0]);
    }
}

/// The failure of a source names it, and the complaint of a protocol names that.
pub proof fn law_failures_name_their_source(e: MarketDataError, by: Seq<char>, words: Seq<char>)
    ensures
        e.is_websocket(by, words) ==> (e matches MarketDataError::WebSocket {
            source_name,
            message,
        } && source_name@ == by && message@ == words),
        e.is_parse(by, words) ==> (e matches MarketDataError::Parse { protocol_name, message }
            && protocol_name@ == by && message@ == words),
{
}

/// A symbol that is given a channel keeps the one it has; a new one is nobody else's, is
/// empty, and has no follower. The other symbols and the size of channels stay.
pub proof fn law_new_channels_are_apart(
    before: DistributorModel,
    after: DistributorModel,
    symbol: u32,
    other: u32,
)
    requires
        after.opened_from(before, symbol),
    ensures
        after.capacity == before.capacity,
        after.channels.contains_key(symbol),
        other != symbol ==> (after.channels.contains_key(other)
            <==> before.channels.contains_key(other)),
        before.channels.contains_key(other) ==> after.channels[other] == before.channels[other],
        !before.channels.contains_key(symbol) ==> !after.channels[symbol].followed
            && after.channels[symbol].taken.len() == 0,
        !before.channels.contains_key(symbol) && before.channels.contains_key(other)
            ==> after.channels[other].id != after.channels[symbol].id,
{
    assert(after.channels.dom().contains(symbol));
    assert(after.channels.dom().contains(other) <==> before.channels.dom().contains(other) || other
        == symbol);
}

} // verus!
