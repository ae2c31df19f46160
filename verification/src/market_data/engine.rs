//! The way of a tick from the feed to the bus.
use crate::base::schema::{LatencyRecord, Stage, Tick};
use crate::base::text::{decimal, decimal_text, join};
use crate::base::types::CorrelationId;
use crate::market_data::breadth::{
    shows, BreadthAggregator, BreadthModel, BreadthSnapshot, SectorBreadth, VolatilityBreadth,
};
use crate::market_data::distributor::{has_followers, Distributor, DistributorModel};
use crate::market_data::error::MarketDataError;
use crate::market_data::interner::{InternerModel, SymbolInterner};
use crate::market_data::normalizer::{normalises, Exchange, TickNormalizer};
use crate::market_data::protocol::RawTick;
use crate::market_data::tick_wire::{tick_bytes, tick_to_raw_bytes};
use crate::obs::tracer::{latency_record, records, tell, told, LatencyEmitter};
use vstd::prelude::*;

verus! {

/// How long a tick may take from its arrival until it is published.
pub const TICK_INGEST_BUDGET_NS: u64 = 2_000_000;

/// Where sector breadth is published.
pub const MD_BREADTH_SECTOR: &'static str = "md.breadth.sector";

/// Where volatility breadth is published.
pub const MD_BREADTH_VOL: &'static str = "md.breadth.volatility";

/// The breadth that a tick brought about.
#[derive(Clone, Debug, PartialEq, Eq)]
pub struct BreadthByproduct {
    pub sector: Option<SectorBreadth>,
    pub volatility: Option<VolatilityBreadth>,
}

/// What to do about what the feed yields.
#[derive(Debug, PartialEq, Eq)]
pub enum FeedStep {
    /// Publish this tick, and take it in.
    Ingest(Tick),
    /// Open the connection again, because of this.
    Reconnect(MarketDataError),
}

/// The state of an engine.
pub struct EngineModel {
    pub symbols: InternerModel,
    pub channels: DistributorModel,
}

/// Normalises, publishes and distributes the ticks of a feed.
#[derive(Debug)]
pub struct MarketDataEngine {
    normalizer: TickNormalizer,
    distributor: Distributor,
}

impl View for MarketDataEngine {
    type V = EngineModel;

    closed spec fn view(&self) -> EngineModel {
        EngineModel { symbols: self.normalizer@, channels: self.distributor@ }
    }
}

/// The subject under which a tick is published.
pub fn tick_subject(tick: &Tick) -> (subject: String)
    ensures
        subject@ == "md.tick."@ + decimal(tick.symbol as nat),
{
    join("md.tick.", decimal_text(tick.symbol as u64).as_str())
}

/// What an aggregator yields for a tick, as it was and as it is.
pub open spec fn breadth_taken(
    before: BreadthModel,
    after: BreadthModel,
    tick: Tick,
    now_ns: u64,
    by: BreadthByproduct,
) -> bool {
    &&& after == before.after_tick(tick.symbol, tick.ltp_paise, now_ns)
    &&& if before.completes(now_ns) {
        shows(
            BreadthSnapshot {
                sector: by.sector,
                volatility: by.volatility,
            },
            after,
            now_ns,
        )
    } else {
        by.sector is None && by.volatility is None
    }
}

/// What became of the channels after a tick was offered to the followers of its
/// symbol: its channel took it, or nobody was there to take it.
pub open spec fn handed_on(
    before: DistributorModel,
    after: DistributorModel,
    tick: Tick,
) -> bool {
    after == before || (has_followers(before.channels, tick.symbol) && after == before.took(tick))
}

impl MarketDataEngine {
    pub fn new(interner: SymbolInterner, distributor: Distributor) -> (e: MarketDataEngine)
        ensures
            e@ == (EngineModel { symbols: interner@, channels: distributor@ }),
    {
        MarketDataEngine { normalizer: TickNormalizer::new(interner), distributor }
    }

    pub fn interner(&self) -> (i: &SymbolInterner)
        ensures
            i@ == self@.symbols,
    {
        self.normalizer.interner()
    }

    pub fn distributor(&self) -> (d: &Distributor)
        ensures
            d@ == self@.channels,
    {
        &self.distributor
    }

    /// The distributor, to follow symbols on.
    pub fn distributor_mut(&mut self) -> (d: &mut Distributor)
        ensures
            d@ == old(self)@.channels,
            final(self)@ == (EngineModel { channels: final(d)@, ..old(self)@ }),
    {
        &mut self.distributor
    }

    /// What to do about what the feed yields: a tick is normalised under the
    /// correlation id given, and a failure ends the connection.
    pub fn on_message(
        &mut self,
        message: Result<RawTick, MarketDataError>,
        exchange: Exchange,
        correlation_id: CorrelationId,
        now_ns: u64,
    ) -> (step: FeedStep)
        ensures
            final(self)@.channels == old(self)@.channels,
            match message {
                Ok(raw) => {
                    &&& final(self)@.symbols == old(self)@.symbols.after(raw.symbol@)
                    &&& step matches FeedStep::Ingest(tick) && normalises(
                        raw,
                        exchange,
                        final(self)@.symbols.ids[raw.symbol@],
                        correlation_id,
                        now_ns,
                        tick,
                    )
                },
                Err(e) => final(self)@.symbols == old(self)@.symbols && step
                    == FeedStep::Reconnect(e),
            },
    {
        match message {
            Ok(raw) => FeedStep::Ingest(
                self.normalizer.normalize_with_correlation(&raw, exchange, correlation_id, now_ns),
            ),
            Err(e) => FeedStep::Reconnect(e),
        }
    }

    /// The message by which a tick is published: its subject and its bytes.
    pub fn tick_message(&self, tick: &Tick) -> (message: (String, Vec<u8>))
        ensures
            message.0@ == "md.tick."@ + decimal(tick.symbol as nat),
            message.1@ == tick_bytes(*tick),
    {
        (tick_subject(tick), tick_to_raw_bytes(tick))
    }

    /// Take in a tick, given how its publication went. One that could not be
    /// published goes no further; else it is distributed, and counts towards
    /// breadth.
    pub fn ingest_tick(
        &mut self,
        tick: &Tick,
        published: Result<(), String>,
        breadth: &mut BreadthAggregator,
        now_ns: u64,
    ) -> (by: Result<BreadthByproduct, MarketDataError>)
        requires
            old(breadth).wf(),
        ensures
            final(breadth).wf(),
            final(self)@.symbols == old(self)@.symbols,
            match published {
                Ok(()) => {
                    &&& by matches Ok(by) && breadth_taken(
                        old(breadth)@,
                        final(breadth)@,
                        *tick,
                        now_ns,
                        by,
                    )
                    &&& handed_on(old(self)@.channels, final(self)@.channels, *tick)
                },
                Err(fault) => {
                    &&& by == Err::<BreadthByproduct, MarketDataError>(
                        MarketDataError::Bus(fault),
                    )
                    &&& final(breadth)@ == old(breadth)@
                    &&& final(self)@.channels == old(self)@.channels
                },
            },
    {
        match published {
            Err(fault) => Err(MarketDataError::Bus(fault)),
            Ok(()) => {
                let _ = self.distributor.broadcast(tick);
                let snap = breadth.on_tick(tick, now_ns);
                Ok(BreadthByproduct { sector: snap.sector, volatility: snap.volatility })
            },
        }
    }
}

/// Tell an emitter how long a tick took.
pub fn emit_tick_ingest_latency<E: LatencyEmitter>(
    sink: &mut E,
    correlation_id: CorrelationId,
    elapsed_ns: u64,
) -> (record: LatencyRecord)
    ensures
        records(
            record,
            Stage::TickIngest,
            correlation_id,
            elapsed_ns,
            TICK_INGEST_BUDGET_NS,
        ),
        told(*old(sink), *final(sink), Stage::TickIngest, record),
{
    let record = latency_record(
        Stage::TickIngest,
        correlation_id,
        elapsed_ns,
        TICK_INGEST_BUDGET_NS,
    );
    tell(sink, Stage::TickIngest, &record);
    record
}

} // verus!
