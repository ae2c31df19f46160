//! From decoded payloads to raw ticks.
use crate::market_data::error::MarketDataError;
use vstd::prelude::*;

verus! {

/// A tick before it is normalised. Prices are in paise.
#[derive(Clone, Debug, PartialEq, Eq)]
pub struct RawTick {
    pub symbol: String,
    pub ltp_paise: i64,
    pub bid_paise: i64,
    pub ask_paise: i64,
    pub ltq: u64,
    pub total_buy_qty: u64,
    pub total_sell_qty: u64,
    pub ts_exchange_ms: u64,
}

/// The canonical JSON form of a tick, field by field. Prices are in paise.
#[derive(Clone, Debug, PartialEq, Eq)]
pub struct CanonicalJsonTick {
    pub symbol: String,
    pub ltp: i64,
    pub bid: i64,
    pub ask: i64,
    pub ltq: u64,
    pub total_buy_qty: u64,
    pub total_sell_qty: u64,
    pub ts_exchange_ms: u64,
}

/// Whether a raw tick says what the canonical form says.
pub open spec fn same_tick(j: CanonicalJsonTick, raw: RawTick) -> bool {
    &&& raw.symbol@ == j.symbol@
    &&& raw.ltp_paise == j.ltp
    &&& raw.bid_paise == j.bid
    &&& raw.ask_paise == j.ask
    &&& raw.ltq == j.ltq
    &&& raw.total_buy_qty == j.total_buy_qty
    &&& raw.total_sell_qty == j.total_sell_qty
    &&& raw.ts_exchange_ms == j.ts_exchange_ms
}

/// The raw tick in the canonical form.
pub fn raw_tick(j: CanonicalJsonTick) -> (raw: RawTick)
    ensures
        same_tick(j, raw),
{
    RawTick {
        symbol: j.symbol,
        ltp_paise: j.ltp,
        bid_paise: j.bid,
        ask_paise: j.ask,
        ltq: j.ltq,
        total_buy_qty: j.total_buy_qty,
        total_sell_qty: j.total_sell_qty,
        ts_exchange_ms: j.ts_exchange_ms,
    }
}

/// Whether `parsed` is what a protocol of the given name makes of a decoded
/// payload: the tick in it, or the fault of the decoder under the protocol's name.
pub open spec fn reads_as(
    protocol: Seq<char>,
    decoded: Result<CanonicalJsonTick, String>,
    parsed: Result<RawTick, MarketDataError>,
) -> bool {
    match (decoded, parsed) {
        (Ok(j), Ok(raw)) => same_tick(j, raw),
        (Err(fault), Err(e)) => e.is_parse(protocol, fault@),
        _ => false,
    }
}

/// The tick in a decoded payload.
pub fn parse_canonical_json(
    protocol_name: &'static str,
    decoded: Result<CanonicalJsonTick, String>,
) -> (parsed: Result<RawTick, MarketDataError>)
    ensures
        reads_as(protocol_name@, decoded, parsed),
{
    match decoded {
        Ok(j) => Ok(raw_tick(j)),
        Err(fault) => Err(MarketDataError::parse(protocol_name, fault.as_str())),
    }
}

/// How the payloads of a feed are read.
pub trait MarketDataProtocol {
    /// A payload as the parser takes it: the bytes of a frame, or what a decoder
    /// made of them.
    type Payload;

    /// The name that stands in errors and labels.
    spec fn protocol_name(&self) -> Seq<char>;

    /// Whether `parsed` is what a payload reads as.
    spec fn reads(
        &self,
        payload: Self::Payload,
        parsed: Result<RawTick, MarketDataError>,
    ) -> bool;

    fn name(&self) -> (name: &'static str)
        ensures
            name@ == self.protocol_name(),
    ;

    /// The tick in a payload.
    fn parse(&self, payload: Self::Payload) -> (parsed: Result<RawTick, MarketDataError>)
        ensures
            self.reads(payload, parsed),
    ;
}

/// The feed of the National Stock Exchange, in canonical JSON.
#[derive(Clone, Copy, Debug)]
pub struct NseProtocolPlaceholder;

impl MarketDataProtocol for NseProtocolPlaceholder {
    type Payload = Result<CanonicalJsonTick, String>;

    open spec fn protocol_name(&self) -> Seq<char> {
        "NseProtocolPlaceholder"@
    }

    open spec fn reads(
        &self,
        payload: Result<CanonicalJsonTick, String>,
        parsed: Result<RawTick, MarketDataError>,
    ) -> bool {
        reads_as(self.protocol_name(), payload, parsed)
    }

    fn name(&self) -> (name: &'static str) {
        "NseProtocolPlaceholder"
    }

    fn parse(&self, payload: Result<CanonicalJsonTick, String>) -> (parsed: Result<
        RawTick,
        MarketDataError,
    >) {
        parse_canonical_json(self.name(), payload)
    }
}

/// The feed of the Bombay Stock Exchange, in canonical JSON.
#[derive(Clone, Copy, Debug)]
pub struct BseProtocolPlaceholder;

impl MarketDataProtocol for BseProtocolPlaceholder {
    type Payload = Result<CanonicalJsonTick, String>;

    open spec fn protocol_name(&self) -> Seq<char> {
        "BseProtocolPlaceholder"@
    }

    open spec fn reads(
        &self,
        payload: Result<CanonicalJsonTick, String>,
        parsed: Result<RawTick, MarketDataError>,
    ) -> bool {
        reads_as(self.protocol_name(), payload, parsed)
    }

    fn name(&self) -> (name: &'static str) {
        "BseProtocolPlaceholder"
    }

    fn parse(&self, payload: Result<CanonicalJsonTick, String>) -> (parsed: Result<
        RawTick,
        MarketDataError,
    >) {
        parse_canonical_json(self.name(), payload)
    }
}

/// The feed of the options chain, in canonical JSON.
#[derive(Clone, Copy, Debug)]
pub struct OptionsChainProtocolPlaceholder;

impl MarketDataProtocol for OptionsChainProtocolPlaceholder {
    type Payload = Result<CanonicalJsonTick, String>;

    open spec fn protocol_name(&self) -> Seq<char> {
        "OptionsChainProtocolPlaceholder"@
    }

    open spec fn reads(
        &self,
        payload: Result<CanonicalJsonTick, String>,
        parsed: Result<RawTick, MarketDataError>,
    ) -> bool {
        reads_as(self.protocol_name(), payload, parsed)
    }

    fn name(&self) -> (name: &'static str) {
        "OptionsChainProtocolPlaceholder"
    }

    fn parse(&self, payload: Result<CanonicalJsonTick, String>) -> (parsed: Result<
        RawTick,
        MarketDataError,
    >) {
        parse_canonical_json(self.name(), payload)
    }
}

} // verus!
