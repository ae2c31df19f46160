//! The records that the engines exchange.
use vstd::prelude::*;

verus! {

/// One price level of a book side.
#[derive(Clone, Copy, Debug, PartialEq, Eq, Structural)]
pub struct BookLevel {
    pub price_paise: i64,
    pub qty: u64,
    pub orders: u32,
}

/// An order book as it arrives: best level first on each side.
#[derive(Clone, Debug, PartialEq, Eq)]
pub struct OrderBook {
    pub correlation_id: [u8; 16],
    pub symbol: u32,
    pub exchange: i8,
    pub bid_levels: Vec<BookLevel>,
    pub ask_levels: Vec<BookLevel>,
    pub ts_ns: u64,
}

/// A normalised tick. Prices are in paise.
#[derive(Clone, Copy, Debug, PartialEq, Eq)]
pub struct Tick {
    pub correlation_id: [u8; 16],
    pub symbol: u32,
    pub exchange: i8,
    pub ltp_paise: i64,
    pub bid_paise: i64,
    pub ask_paise: i64,
    pub ltq: u64,
    pub total_buy_qty: u64,
    pub total_sell_qty: u64,
    pub ts_exchange_ns: u64,
    pub ts_recv_ns: u64,
}

/// A stage of the way from a tick to an order.
#[derive(Clone, Copy, Debug, PartialEq, Eq, Hash, Structural)]
pub enum Stage {
    TickIngest,
    FeatureExtraction,
    AiScoringFetch,
    RiskCheck,
    ExecutionRouting,
    BrokerSubmit,
}

impl Stage {
    /// The number of the stage.
    pub open spec fn number(self) -> u8 {
        match self {
            Stage::TickIngest => 0,
            Stage::FeatureExtraction => 1,
            Stage::AiScoringFetch => 2,
            Stage::RiskCheck => 3,
            Stage::ExecutionRouting => 4,
            Stage::BrokerSubmit => 5,
        }
    }

    /// The number of the stage.
    pub fn as_u8(self) -> (n: u8)
        ensures
            n == self.number(),
    {
        match self {
            Stage::TickIngest => 0,
            Stage::FeatureExtraction => 1,
            Stage::AiScoringFetch => 2,
            Stage::RiskCheck => 3,
            Stage::ExecutionRouting => 4,
            Stage::BrokerSubmit => 5,
        }
    }

    /// The name of the stage.
    pub open spec fn name(self) -> Seq<char> {
        match self {
            Stage::TickIngest => "TickIngest"@,
            Stage::FeatureExtraction => "FeatureExtraction"@,
            Stage::AiScoringFetch => "AiScoringFetch"@,
            Stage::RiskCheck => "RiskCheck"@,
            Stage::ExecutionRouting => "ExecutionRouting"@,
            Stage::BrokerSubmit => "BrokerSubmit"@,
        }
    }

    /// The name of the stage.
    pub fn as_str(self) -> (s: &'static str)
        ensures
            s@ == self.name(),
    {
        match self {
            Stage::TickIngest => "TickIngest",
            Stage::FeatureExtraction => "FeatureExtraction",
            Stage::AiScoringFetch => "AiScoringFetch",
            Stage::RiskCheck => "RiskCheck",
            Stage::ExecutionRouting => "ExecutionRouting",
            Stage::BrokerSubmit => "BrokerSubmit",
        }
    }
}

/// How long one stage took, and whether that broke its budget.
#[derive(Clone, Copy, Debug, PartialEq, Eq)]
pub struct LatencyRecord {
    pub correlation_id: [u8; 16],
    pub stage: u8,
    pub nanos: u64,
    pub budget_nanos: u64,
    pub breach: bool,
}

} // verus!
