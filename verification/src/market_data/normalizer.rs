//! From raw ticks to normalised ones.
use crate::base::arith::{cap_u64, saturating_mul_u64};
use crate::base::schema::Tick;
use crate::base::types::{correlation_bytes, CorrelationId};
use crate::base::wire::{be_bytes, be_value, lemma_be_round_trip, span};
use crate::market_data::interner::{InternerModel, SymbolInterner};
use crate::market_data::protocol::RawTick;
use vstd::prelude::*;

verus! {

/// The exchange that a tick comes from.
#[derive(Clone, Copy, Debug, PartialEq, Eq, Structural)]
pub enum Exchange {
    /// National Stock Exchange of India.
    Nse,
    /// Bombay Stock Exchange.
    Bse,
}

impl Exchange {
    /// The number of the exchange on the wire.
    pub open spec fn code(self) -> i8 {
        match self {
            Exchange::Nse => 0,
            Exchange::Bse => 1,
        }
    }

    /// The number of the exchange on the wire.
    pub fn as_byte(self) -> (b: i8)
        ensures
            b == self.code(),
    {
        match self {
            Exchange::Nse => 0,
            Exchange::Bse => 1,
        }
    }
}

/// Whether a tick is what a raw one is normalised to: prices and quantities as
/// they are, milliseconds as nanoseconds, held at the largest `u64`.
pub open spec fn normalises(
    raw: RawTick,
    exchange: Exchange,
    symbol: u32,
    correlation_id: CorrelationId,
    recv_ns: u64,
    tick: Tick,
) -> bool {
    &&& tick.correlation_id@ == be_bytes(correlation_id.0 as nat, 16)
    &&& tick.symbol == symbol
    &&& tick.exchange == exchange.code()
    &&& tick.ltp_paise == raw.ltp_paise
    &&& tick.bid_paise == raw.bid_paise
    &&& tick.ask_paise == raw.ask_paise
    &&& tick.ltq == raw.ltq
    &&& tick.total_buy_qty == raw.total_buy_qty
    &&& tick.total_sell_qty == raw.total_sell_qty
    &&& tick.ts_exchange_ns == cap_u64(raw.ts_exchange_ms * 1_000_000)
    &&& tick.ts_recv_ns == recv_ns
}

/// What a tick gets on arrival: a correlation id of its own, and the time.
#[derive(Clone, Copy, Debug, PartialEq, Eq, Structural)]
pub struct Arrival {
    pub correlation_id: CorrelationId,
    pub recv_ns: u64,
}

/// Normalises ticks, with the numbers of one interner.
#[derive(Debug)]
pub struct TickNormalizer {
    interner: SymbolInterner,
}

impl View for TickNormalizer {
    type V = InternerModel;

    closed spec fn view(&self) -> InternerModel {
        self.interner@
    }
}

impl TickNormalizer {
    pub fn new(interner: SymbolInterner) -> (n: TickNormalizer)
        ensures
            n@ == interner@,
    {
        TickNormalizer { interner }
    }

    pub fn interner(&self) -> (i: &SymbolInterner)
        ensures
            i@ == self@,
    {
        &self.interner
    }

    /// Normalise a tick with what it got on arrival.
    pub fn normalize(&mut self, raw: &RawTick, exchange: Exchange, arrival: Arrival) -> (tick: Tick)
        ensures
            final(self)@ == old(self)@.after(raw.symbol@),
            normalises(
                *raw,
                exchange,
                final(self)@.ids[raw.symbol@],
                arrival.correlation_id,
                arrival.recv_ns,
                tick,
            ),
    {
        self.normalize_with_correlation(raw, exchange, arrival.correlation_id, arrival.recv_ns)
    }

    /// Normalise a tick under a correlation id that is already in use.
    pub fn normalize_with_correlation(
        &mut self,
        raw: &RawTick,
        exchange: Exchange,
        correlation_id: CorrelationId,
        recv_ns: u64,
    ) -> (tick: Tick)
        ensures
            final(self)@ == old(self)@.after(raw.symbol@),
            normalises(
                *raw,
                exchange,
                final(self)@.ids[raw.symbol@],
                correlation_id,
                recv_ns,
                tick,
            ),
    {
        let symbol = self.interner.intern(raw.symbol.as_str());
        Tick {
            correlation_id: correlation_bytes(correlation_id),
            symbol: symbol.0,
            exchange: exchange.as_byte(),
            ltp_paise: raw.ltp_paise,
            bid_paise: raw.bid_paise,
            ask_paise: raw.ask_paise,
            ltq: raw.ltq,
            total_buy_qty: raw.total_buy_qty,
            total_sell_qty: raw.total_sell_qty,
            ts_exchange_ns: saturating_mul_u64(raw.ts_exchange_ms, 1_000_000),
            ts_recv_ns: recv_ns,
        }
    }
}

/// The correlation id can be read back from a tick.
pub proof fn law_correlation_id_is_kept(
    raw: RawTick,
    exchange: Exchange,
    symbol: u32,
    correlation_id: CorrelationId,
    recv_ns: u64,
    tick: Tick,
)
    requires
        normalises(raw, exchange, symbol, correlation_id, recv_ns, tick),
    ensures
        be_value(tick.correlation_id@) == correlation_id.0,
{
    assert(correlation_id.0 < span(16)) by {
        reveal_with_fuel(span, 17);
    }
    lemma_be_round_trip(correlation_id.0 as nat, 16);
}

} // verus!
