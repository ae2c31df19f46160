//! Book and tick messages on their way into the order-flow engine.
use crate::base::json::{
    i64_at, json_document, member, parse_json, text_at, u64_at, value_model, JsonModel,
};
use crate::base::schema::{BookLevel, OrderBook};
use crate::market_data::tick_wire::{decode_tick, spells, TICK_WIRE_SIZE};
use crate::orderflow::engine::OrderflowEngine;
use crate::orderflow::events::trade_events;
use crate::orderflow::metrics::OrderflowSnapshot;
use serde_json::Value;
use vstd::prelude::*;

verus! {

/// The best quotes of a symbol, as a book message states them.
#[derive(Debug)]
pub struct QuoteMessage {
    pub symbol: String,
    pub bid_paise: i64,
    pub bid_qty: u64,
    pub ask_paise: i64,
    pub ask_qty: u64,
    /// The time of the message, where it has one.
    pub ts_ns: Option<u64>,
}

/// The record with the quotes: the `data` member, where it names a symbol.
pub open spec fn quote_body(message: JsonModel) -> Option<JsonModel> {
    match message.member("data"@) {
        Some(data) => if data.text_at("symbol"@) is Some {
            Some(data)
        } else {
            None
        },
        None => None,
    }
}

/// Whether quotes are what the record says; a missing price or size is zero.
pub open spec fn states_quote(body: JsonModel, quote: QuoteMessage) -> bool {
    &&& body.text_at("symbol"@) == Some(quote.symbol@)
    &&& quote.bid_paise == body.integer_at("bid_paise"@, i64::MIN as int, i64::MAX as int, 0)
    &&& quote.bid_qty == body.integer_at("bid_qty"@, 0, u64::MAX as int, 0)
    &&& quote.ask_paise == body.integer_at("ask_paise"@, i64::MIN as int, i64::MAX as int, 0)
    &&& quote.ask_qty == body.integer_at("ask_qty"@, 0, u64::MAX as int, 0)
    &&& match quote.ts_ns {
        Some(t) => body.integer_at("ts_ns"@, 0, u64::MAX as int, -1) == t,
        None => body.integer_at("ts_ns"@, 0, u64::MAX as int, -1) == -1,
    }
}

/// Take the quotes out of a JSON message. One that names no symbol has none.
pub fn quote_from_value(message: &Value) -> (quote: Option<QuoteMessage>)
    ensures
        match quote {
            Some(q) => quote_body(value_model(*message)) matches Some(body) && states_quote(
                body,
                q,
            ),
            None => quote_body(value_model(*message)) is None,
        },
{
    let body: &Value = match member(message, "data") {
        Some(data) => data,
        None => {
            return None;
        },
    };
    let symbol: String = match text_at(body, "symbol") {
        Some(s) => s.to_owned(),
        None => {
            return None;
        },
    };
    let ts_ns: Option<u64> = match member(body, "ts_ns") {
        Some(m) => crate::base::json::as_u64(m),
        None => None,
    };
    Some(
        QuoteMessage {
            symbol,
            bid_paise: i64_at(body, "bid_paise", 0),
            bid_qty: u64_at(body, "bid_qty", 0),
            ask_paise: i64_at(body, "ask_paise", 0),
            ask_qty: u64_at(body, "ask_qty", 0),
            ts_ns,
        },
    )
}

/// Read a book message. Bytes that are no JSON document are an error.
pub fn read_quote(bytes: &[u8]) -> (quote: Result<Option<QuoteMessage>, String>)
    ensures
        match quote {
            Ok(Some(q)) => json_document(bytes@) matches Some(message) && quote_body(
                message,
            ) matches Some(body) && states_quote(body, q),
            Ok(None) => json_document(bytes@) matches Some(message) && quote_body(message) is None,
            Err(_) => json_document(bytes@) is None,
        },
{
    match parse_json(bytes) {
        Ok(message) => Ok(quote_from_value(&message)),
        Err(e) => Err(e),
    }
}

/// The one level of a side, or none where nothing is quoted.
pub open spec fn quoted_levels(price_paise: i64, qty: u64) -> Seq<BookLevel> {
    if qty > 0 {
        seq![BookLevel { price_paise, qty, orders: 1 }]
    } else {
        Seq::empty()
    }
}

/// The levels of a side that quotes at most one.
fn one_level(price_paise: i64, qty: u64) -> (levels: Vec<BookLevel>)
    ensures
        levels@ == quoted_levels(price_paise, qty),
{
    let mut levels: Vec<BookLevel> = Vec::new();
    if qty > 0 {
        levels.push(BookLevel { price_paise, qty, orders: 1 });
        assert(levels@ =~= quoted_levels(price_paise, qty));
    }
    levels
}

/// The book of best quotes for a known symbol; nothing for symbol zero. A message
/// without a time counts as of `now_ns`.
pub fn book_from_quote(quote: &QuoteMessage, symbol_id: u32, now_ns: u64) -> (book: Option<
    OrderBook,
>)
    ensures
        match book {
            Some(b) => {
                &&& symbol_id != 0
                &&& b.symbol == symbol_id
                &&& b.exchange == 0
                &&& forall|i: int| 0 <= i < 16 ==> #[trigger] b.correlation_id@[i] == 0
                &&& b.bid_levels@ == quoted_levels(quote.bid_paise, quote.bid_qty)
                &&& b.ask_levels@ == quoted_levels(quote.ask_paise, quote.ask_qty)
                &&& b.ts_ns == match quote.ts_ns {
                    Some(t) => t,
                    None => now_ns,
                }
            },
            None => symbol_id == 0,
        },
{
    if symbol_id == 0 {
        return None;
    }
    let ts_ns: u64 = match quote.ts_ns {
        Some(t) => t,
        None => now_ns,
    };
    Some(
        OrderBook {
            correlation_id: [0u8;16],
            symbol: symbol_id,
            exchange: 0,
            bid_levels: one_level(quote.bid_paise, quote.bid_qty),
            ask_levels: one_level(quote.ask_paise, quote.ask_qty),
            ts_ns,
        },
    )
}

/// Take a binary tick into the engine, as of its receive time. A string that is
/// no tick is skipped.
pub fn ingest_tick_bytes(engine: &mut OrderflowEngine, bytes: &[u8]) -> (snap: Option<
    OrderflowSnapshot,
>)
    requires
        old(engine).wf(),
    ensures
        final(engine).wf(),
        final(engine).keeps_channels(*old(engine)),
        final(engine).window() == old(engine).window(),
        final(engine).mode() == old(engine).mode(),
        bytes@.len() != TICK_WIRE_SIZE ==> snap is None && final(engine).held() == old(
            engine,
        ).held(),
        bytes@.len() == TICK_WIRE_SIZE ==> exists|t: crate::base::schema::Tick| #[trigger]
            spells(bytes@, t) && final(engine).held() == old(engine).held().insert(
                t.symbol,
                old(engine).state_at(t.symbol).after_tick(t.ltp_paise, t.ltq, t.ts_recv_ns),
            ) && snap is Some && final(engine).state_at(t.symbol).gives(
                snap->0,
                t.ts_recv_ns,
                if t.ltq == 0 {
                    Seq::empty()
                } else {
                    trade_events(t.ltp_paise, t.ltq, old(engine).state_at(t.symbol).book)
                },
            ),
{
    match decode_tick(bytes) {
        Some(tick) => Some(engine.ingest_tick(&tick, tick.ts_recv_ns)),
        None => None,
    }
}

} // verus!
