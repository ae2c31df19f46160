//! What can go wrong in taking in market data.
use crate::base::text::{decimal, decimal_text, join};
use vstd::prelude::*;
use vstd::string::StringExecFns;

verus! {

/// An error of the market-data engine.
#[derive(Clone, Debug, PartialEq, Eq)]
pub enum MarketDataError {
    /// The connection to a source failed.
    WebSocket { source_name: String, message: String },
    /// A protocol could not read a payload.
    Parse { protocol_name: &'static str, message: String },
    /// A message could not be sent or received on the bus.
    Bus(String),
    /// A source could not be reached again.
    ReconnectBudgetExhausted { source_name: String, attempts: u32 },
    /// The configuration is invalid.
    Config(String),
}

impl MarketDataError {
    /// Whether this is the failure of a source, with the given words.
    pub open spec fn is_websocket(self, source: Seq<char>, words: Seq<char>) -> bool {
        self matches MarketDataError::WebSocket { source_name, message } && source_name@ == source
            && message@ == words
    }

    /// Whether this is the complaint of a protocol, with the given words.
    pub open spec fn is_parse(self, protocol: Seq<char>, words: Seq<char>) -> bool {
        self matches MarketDataError::Parse { protocol_name, message } && protocol_name@
            == protocol && message@ == words
    }

    /// The failure of a source.
    pub fn websocket(source_name: &str, err: &str) -> (e: MarketDataError)
        ensures
            e.is_websocket(source_name@, err@),
    {
        MarketDataError::WebSocket {
            source_name: String::from_str(source_name),
            message: String::from_str(err),
        }
    }

    /// The complaint of a protocol about a payload.
    pub fn parse(protocol_name: &'static str, err: &str) -> (e: MarketDataError)
        ensures
            e.is_parse(protocol_name@, err@),
    {
        MarketDataError::Parse { protocol_name, message: String::from_str(err) }
    }

    /// The words of an error.
    pub open spec fn words(self) -> Seq<char> {
        match self {
            MarketDataError::WebSocket { source_name, message } => "websocket error on source `"@
                + source_name@ + "`: "@ + message@,
            MarketDataError::Parse { protocol_name, message } => "protocol `"@ + protocol_name@
                + "` failed to parse payload: "@ + message@,
            MarketDataError::Bus(m) => "bus error: "@ + m@,
            MarketDataError::ReconnectBudgetExhausted { source_name, attempts } => "source `"@
                + source_name@ + "` exceeded reconnect budget after "@ + decimal(attempts as nat)
                + " attempts"@,
            MarketDataError::Config(m) => "configuration error: "@ + m@,
        }
    }

    /// The error in words.
    pub fn to_text(&self) -> (s: String)
        ensures
            s@ == self.words(),
    {
        match self {
            MarketDataError::WebSocket { source_name, message } => {
                let mut s = join("websocket error on source `", source_name.as_str());
                s.append("`: ");
                s.append(message.as_str());
                s
            },
            MarketDataError::Parse { protocol_name, message } => {
                let mut s = join("protocol `", *protocol_name);
                s.append("` failed to parse payload: ");
                s.append(message.as_str());
                s
            },
            MarketDataError::Bus(m) => join("bus error: ", m.as_str()),
            MarketDataError::ReconnectBudgetExhausted { source_name, attempts } => {
                let mut s = join("source `", source_name.as_str());
                s.append("` exceeded reconnect budget after ");
                s.append(decimal_text(*attempts as u64).as_str());
                s.append(" attempts");
                s
            },
            MarketDataError::Config(m) => join("configuration error: ", m.as_str()),
        }
    }
}

} // verus!
