//! Fill and tick messages on their way into the position engine, and the figures
//! that leave it.
use crate::base::json::{
    i64_at, json_document, member, parse_json, text_at, u64_at, value_model, JsonModel,
};
use crate::base::text::same_text;
use crate::base::types::{Px, Side, SymbolId};
use crate::base::wire::{
    from_pattern, get_u32_le, get_u64_le, half_at, law_bytes_count_by_place, le_value, unpattern,
    word_at,
};
use crate::position::engine::{
    reports_position, PositionEngine, PositionEvent,
};
use crate::position::risk_state::TraderRiskState;
use serde_json::Value;
use vstd::prelude::*;
use vstd::string::StringExecFns;

verus! {

/// A fill as an execution message states it.
#[derive(Debug)]
pub struct FillMessage {
    pub symbol: String,
    pub side: Side,
    pub qty: u64,
    pub px: Px,
}

/// The record that a message is about: its `data` member, or the message itself.
pub open spec fn body_of(message: JsonModel) -> JsonModel {
    match message.member("data"@) {
        Some(data) => data,
        None => message,
    }
}

/// Whether a fill message is what a JSON message says. A missing symbol is empty,
/// a missing quantity or price zero, and every side but a sell is a buy.
pub open spec fn states_fill(message: JsonModel, fill: FillMessage) -> bool {
    let body = body_of(message);
    &&& fill.symbol@ == match body.text_at("symbol"@) {
        Some(s) => s,
        None => ""@,
    }
    &&& fill.qty == body.integer_at("filled_qty"@, 0, u64::MAX as int, 0)
    &&& fill.px.0 == body.integer_at("avg_fill_paise"@, i64::MIN as int, i64::MAX as int, 0)
    &&& fill.side == if body.text_at("side"@) == Some("sell"@) || body.text_at("side"@) == Some(
        "Sell"@,
    ) {
        Side::Sell
    } else {
        Side::Buy
    }
}

/// Take a fill out of a JSON message.
pub fn fill_from_value(message: &Value) -> (fill: FillMessage)
    ensures
        states_fill(value_model(*message), fill),
{
    let body: &Value = match member(message, "data") {
        Some(data) => data,
        None => message,
    };
    let symbol: String = match text_at(body, "symbol") {
        Some(s) => String::from_str(s),
        None => String::from_str(""),
    };
    let qty: u64 = u64_at(body, "filled_qty", 0);
    let paise: i64 = i64_at(body, "avg_fill_paise", 0);
    let side: Side = match text_at(body, "side") {
        Some(s) => if same_text(s, "sell") || same_text(s, "Sell") {
            Side::Sell
        } else {
            Side::Buy
        },
        None => Side::Buy,
    };
    FillMessage { symbol, side, qty, px: Px(paise) }
}

/// Read a fill message. Bytes that are no JSON document are an error.
pub fn read_fill(bytes: &[u8]) -> (fill: Result<FillMessage, String>)
    ensures
        match fill {
            Ok(f) => json_document(bytes@) matches Some(message) && states_fill(message, f),
            Err(_) => json_document(bytes@) is None,
        },
{
    match parse_json(bytes) {
        Ok(message) => Ok(fill_from_value(&message)),
        Err(e) => Err(e),
    }
}

/// Fold a fill message into the engine. One on an unknown symbol, numbered zero,
/// or without a quantity is dropped.
pub fn handle_fill(
    engine: &mut PositionEngine,
    symbol_id: u32,
    fill: &FillMessage,
    now_ns: u64,
) -> (events: Vec<PositionEvent>)
    requires
        old(engine).wf(),
        symbol_id != 0 && fill.qty != 0 ==> old(engine)@.position_at(SymbolId(symbol_id)).fits(
            fill.side,
            fill.qty,
            fill.px,
        ),
    ensures
        final(engine).wf(),
        symbol_id == 0 || fill.qty == 0 ==> events@.len() == 0 && final(engine)@ == old(engine)@,
        symbol_id != 0 && fill.qty != 0 ==> {
            &&& final(engine)@ == old(engine)@.after_fill(
                SymbolId(symbol_id),
                fill.side,
                fill.qty,
                fill.px,
                now_ns,
            )
            &&& events@.len() == 2
            &&& reports_position(
                events@[0],
                SymbolId(symbol_id),
                final(engine)@.positions[symbol_id],
            )
            &&& events@[1] == PositionEvent::RiskState(final(engine)@.aggregate)
        },
{
    if symbol_id == 0 || fill.qty == 0 {
        return Vec::new();
    }
    engine.on_fill(SymbolId(symbol_id), fill.side, fill.qty, fill.px, now_ns)
}

/// The symbol and last price of a binary tick: all that marking needs. A string
/// too short to hold them, or on symbol zero, has none.
pub open spec fn mark_in(bytes: Seq<u8>) -> Option<(SymbolId, Px)> {
    if bytes.len() < 29 || le_value(bytes.subrange(16, 20)) == 0 {
        None
    } else {
        Some(
            (
                SymbolId(le_value(bytes.subrange(16, 20)) as u32),
                Px(unpattern(le_value(bytes.subrange(21, 29))) as i64),
            ),
        )
    }
}

/// Fold a binary tick into the engine.
pub fn handle_tick(engine: &mut PositionEngine, bytes: &[u8], now_ns: u64) -> (events: Vec<
    PositionEvent,
>)
    requires
        old(engine).wf(),
    ensures
        final(engine).wf(),
        match mark_in(bytes@) {
            None => final(engine)@ == old(engine)@ && events@.len() == 0,
            Some((symbol, px)) => {
                let m = old(engine)@;
                &&& final(engine)@ == m.after_tick(symbol, px, now_ns)
                &&& events@.len() == (if m.tick_reports_position(symbol, now_ns) {
                    1int
                } else {
                    0
                }) + (if m.tick_reports_risk(symbol, px) {
                    1int
                } else {
                    0
                })
                &&& m.tick_reports_position(symbol, now_ns) ==> reports_position(
                    events@[0],
                    symbol,
                    final(engine)@.positions[symbol.0],
                )
                &&& m.tick_reports_risk(symbol, px) ==> events@.last()
                    == PositionEvent::RiskState(final(engine)@.aggregate)
            },
        },
{
    if bytes.len() < 29 {
        return Vec::new();
    }
    let symbol_id: u32 = get_u32_le(bytes, 16);
    if symbol_id == 0 {
        return Vec::new();
    }
    let ltp_paise: i64 = from_pattern(get_u64_le(bytes, 21));
    engine.on_tick(SymbolId(symbol_id), Px(ltp_paise), now_ns)
}

/// Total profit of the account: peak equity less drawdown less base capital.
pub fn portfolio_pnl_paise(state: &TraderRiskState, base_capital_paise: i64) -> (paise: i64)
    requires
        i64::MIN <= state.peak_equity_paise - state.drawdown_paise <= i64::MAX,
        i64::MIN <= state.peak_equity_paise - state.drawdown_paise - base_capital_paise
            <= i64::MAX,
    ensures
        paise == state.peak_equity_paise - state.drawdown_paise - base_capital_paise,
{
    state.peak_equity_paise - state.drawdown_paise - base_capital_paise
}

/// Where the updates of a symbol's position are published.
pub fn update_subject(symbol: &str) -> (subject: String)
    ensures
        subject@ == "pos.update."@ + symbol@,
{
    String::from_str("pos.update.").concat(symbol)
}

/// Whether a record has an integer under a key.
pub open spec fn has_number(fields: Map<Seq<char>, JsonModel>, key: Seq<char>, n: int) -> bool {
    fields.contains_key(key) && fields[key] == JsonModel::Number(Some(n))
}

/// A fill is read by name, from the `data` of the message or from the message itself:
/// the symbol, the side, the quantity filled and the average price in paise. A sell is
/// spelt small or with a capital; every other side is a buy.
pub proof fn law_fills_are_read_by_name(
    message: Map<Seq<char>, JsonModel>,
    body: Map<Seq<char>, JsonModel>,
    fill: FillMessage,
    n: int,
    word: Seq<char>,
)
    requires
        message.contains_key("data"@) ==> message["data"@] == JsonModel::Record(body),
        !message.contains_key("data"@) ==> body == message,
        states_fill(JsonModel::Record(message), fill),
    ensures
        has_number(body, "filled_qty"@, n) && 0 <= n <= u64::MAX ==> fill.qty == n,
        has_number(body, "avg_fill_paise"@, n) && i64::MIN <= n <= i64::MAX ==> fill.px.0 == n,
        !body.contains_key("filled_qty"@) ==> fill.qty == 0,
        !body.contains_key("avg_fill_paise"@) ==> fill.px.0 == 0,
        body.contains_key("symbol"@) && body["symbol"@] == JsonModel::Text(word) ==> fill.symbol@
            == word,
        !body.contains_key("symbol"@) ==> fill.symbol@.len() == 0,
        body.contains_key("side"@) && body["side"@] == JsonModel::Text(word) ==> (fill.side is Sell
            <==> word == seq!['s', 'e', 'l', 'l'] || word == seq!['S', 'e', 'l', 'l']),
        !body.contains_key("side"@) ==> fill.side is Buy,
{
    reveal_strlit("");
    reveal_strlit("sell");
    reveal_strlit("Sell");
    assert("sell"@ =~= seq!['s', 'e', 'l', 'l']);
    assert("Sell"@ =~= seq!['S', 'e', 'l', 'l']);
}

/// The mark in a binary tick is its last price, under its symbol. Bytes that are too
/// short for one, or name symbol zero, have none.
pub proof fn law_marks_are_last_prices(b: Seq<u8>)
    ensures
        b.len() < 29 ==> mark_in(b) is None,
        b.len() >= 29 && half_at(b, 16) == 0 ==> mark_in(b) is None,
        b.len() >= 29 && half_at(b, 16) != 0 ==> (mark_in(b) matches Some((symbol, px)) && symbol.0
            == half_at(b, 16) && (px.0 == word_at(b, 21) || px.0 == word_at(b, 21)
            - 0x1_0000_0000_0000_0000)),
{
    if b.len() >= 29 {
        law_bytes_count_by_place(b, 16);
        law_bytes_count_by_place(b, 21);
        let v = le_value(b.subrange(16, 20));
        crate::base::wire::lemma_le_rewrite(b.subrange(16, 20));
        crate::base::wire::lemma_le_rewrite(b.subrange(21, 29));
        crate::base::wire::lemma_spans();
    }
}

} // verus!
