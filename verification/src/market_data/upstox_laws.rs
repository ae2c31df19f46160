//! What the bridge makes of replies, in terms of what they hold.
use crate::base::json::{value_model, JsonModel};
use crate::base::order::alphabetical;
use crate::base::schema::Tick;
use crate::base::sort::{lemma_ranking, lemma_reordered, ranking};
use crate::base::text_laws::law_tail_follows_the_first;
use crate::base::wire::{half_at, pattern, word_at};
use crate::market_data::tick_wire::{is_word_of, law_encoded_tick_layout, tick_bytes};
use crate::market_data::upstox::{
    bare_tick_bytes, by_distance, by_strike, colon_key, data_list, data_record, depth_top,
    display_name, distance_keys, extracts, fault_of, has_instrument, holds, listed, named,
    named_by, nearest, offered, offers, power_of_two, price_in, probe_fault_of, row_of, shown,
    shows_book, shows_price, side_data, strike_keys, trading_symbol, BestLevel, DataItem,
    FailureStreak, FeedMessage, OiStrike, StrikeQuote, PATIENCE,
};
use vstd::prelude::*;

verus! {

/// How far a strike lies from a price.
pub open spec fn away(q: StrikeQuote, spot_paise: i64) -> int {
    let d = q.strike_paise - spot_paise;
    if d < 0 {
        -d
    } else {
        d
    }
}

/// How often a strike of a chain is left out of its ladder.
pub open spec fn left_out(quotes: Seq<StrikeQuote>, spot_paise: i64, q: StrikeQuote) -> int {
    quotes.to_multiset().count(q) - shown(quotes, spot_paise).to_multiset().count(q)
}

/// Where the price is known and there are more than eleven strikes, the ladder has
/// eleven of them, and no strike that it leaves out is nearer to the price. Of two
/// that are equally near, the lower is shown first.
pub proof fn law_ladder_shows_the_nearest(
    quotes: Seq<StrikeQuote>,
    spot_paise: i64,
    s: StrikeQuote,
    t: StrikeQuote,
)
    requires
        spot_paise > 0,
        quotes.len() > 11,
        shown(quotes, spot_paise).contains(s),
        left_out(quotes, spot_paise, t) > 0,
    ensures
        shown(quotes, spot_paise).len() == 11,
        away(s, spot_paise) <= away(t, spot_paise),
        away(s, spot_paise) == away(t, spot_paise) ==> s.strike_paise <= t.strike_paise,
{
    broadcast use vstd::seq_lib::group_to_multiset_ensures;

    lemma_reordered(quotes, strike_keys(quotes));
    let all = by_strike(quotes);
    let keys = distance_keys(all, spot_paise);
    lemma_reordered(all, keys);
    let near_first = by_distance(all, spot_paise);
    let near = near_first.take(11);
    let rest = near_first.skip(11);
    lemma_reordered(near, strike_keys(near));
    assert(near_first =~= near + rest);
    vstd::seq_lib::lemma_multiset_commutative(near, rest);
    assert(near.to_multiset().count(s) > 0);
    assert(near.contains(s));
    assert(rest.to_multiset().count(t) > 0);
    assert(rest.contains(t));
    let a = choose|a: int| 0 <= a < near.len() && near[a] == s;
    let b0 = choose|b: int| 0 <= b < rest.len() && rest[b] == t;
    let b = b0 + 11;
    lemma_ranking(keys);
    let r = ranking(keys);
    assert(near_first[a] == all[r[a]] && near_first[b] == all[r[b]]);
    assert(keys[r[a]] <= keys[r[b]]);
    assert(keys[r[a]] == away(s, spot_paise));
    assert(keys[r[b]] == away(t, spot_paise));
    if keys[r[a]] == keys[r[b]] {
        lemma_ascending(quotes);
        assert(all[r[a]].strike_paise <= all[r[b]].strike_paise);
    }
}

/// A chain in order is in ascending order of strike.
proof fn lemma_ascending(quotes: Seq<StrikeQuote>)
    ensures
        by_strike(quotes).len() == quotes.len(),
        forall|a: int, b: int|
            0 <= a <= b < quotes.len() ==> (#[trigger] by_strike(quotes)[a]).strike_paise <= (
            #[trigger] by_strike(quotes)[b]).strike_paise,
{
    let keys = strike_keys(quotes);
    lemma_ranking(keys);
    let r = ranking(keys);
    assert forall|a: int, b: int| 0 <= a <= b < quotes.len() implies (
    #[trigger] by_strike(quotes)[a]).strike_paise <= (#[trigger] by_strike(
        quotes,
    )[b]).strike_paise by {
        assert(by_strike(quotes)[a] == quotes[r[a]]);
        assert(by_strike(quotes)[b] == quotes[r[b]]);
        if a < b {
            assert(keys[r[a]] <= keys[r[b]]);
        }
    }
}

/// The ladder has strikes of the chain only, each as often at most as the chain has
/// it, from the lowest to the highest. Where there are no more than eleven, or the
/// price is not known, it has them all.
pub proof fn law_ladder_is_of_the_chain(quotes: Seq<StrikeQuote>, spot_paise: i64, q: StrikeQuote)
    ensures
        left_out(quotes, spot_paise, q) >= 0,
        quotes.len() <= 11 || spot_paise <= 0 ==> left_out(quotes, spot_paise, q) == 0,
        forall|a: int, b: int|
            0 <= a <= b < shown(quotes, spot_paise).len() ==> (#[trigger] shown(
                quotes,
                spot_paise,
            )[a]).strike_paise <= (#[trigger] shown(quotes, spot_paise)[b]).strike_paise,
{
    broadcast use vstd::seq_lib::group_to_multiset_ensures;

    lemma_reordered(quotes, strike_keys(quotes));
    lemma_ascending(quotes);
    let all = by_strike(quotes);
    let keys = distance_keys(all, spot_paise);
    lemma_reordered(all, keys);
    if quotes.len() > 11 {
        let near_first = by_distance(all, spot_paise);
        let near = near_first.take(11);
        let rest = near_first.skip(11);
        lemma_reordered(near, strike_keys(near));
        lemma_ascending(near);
        assert(near_first =~= near + rest);
        vstd::seq_lib::lemma_multiset_commutative(near, rest);
    }
}

/// A row shows the open interest of its strike, and how it changed: what there is now
/// less what there was.
pub proof fn law_rows_show_the_change(q: StrikeQuote, row: OiStrike)
    requires
        row == row_of(q),
    ensures
        row.strike_paise == q.strike_paise,
        row.call_oi == q.call_oi,
        row.put_oi == q.put_oi,
        i64::MIN <= q.call_oi - q.call_prev_oi <= i64::MAX ==> row.call_chg_oi == q.call_oi
            - q.call_prev_oi,
        i64::MIN <= q.put_oi - q.put_prev_oi <= i64::MAX ==> row.put_chg_oi == q.put_oi
            - q.put_prev_oi,
{
}

/// The first failure is reported, and then each time their number has doubled: an odd
/// number beyond one is not.
pub proof fn law_failures_are_reported_at_doublings(n: nat)
    requires
        n >= 1,
    ensures
        power_of_two(1),
        power_of_two(2 * n) == power_of_two(n),
        !power_of_two(2 * n + 1),
        !power_of_two(0),
{
    assert((2 * n) / 2 == n);
}

/// A streak grows by one with each failure, and from the sixth on the poller pauses
/// and the feed counts as down.
pub proof fn law_patience_ends_at_the_sixth_failure(s: FailureStreak)
    requires
        s.failures < u32::MAX,
    ensures
        s.longer().failures == s.failures + 1,
        s.longer().failures > PATIENCE <==> s.failures >= 5,
{
}

/// A reply is at fault unless its status is one of success; the fault says what was
/// asked for, the status and the body.
pub proof fn law_faults_tell_the_reply(
    what: Seq<char>,
    status: u16,
    words: Seq<char>,
    body: Seq<char>,
)
    ensures
        fault_of(what, status, words, body) is None <==> 200 <= status < 300,
        fault_of(what, status, words, body) matches Some(f) ==> f == what + seq![
            ' ',
            'h',
            't',
            't',
            'p',
            ' ',
        ] + words + seq![':', ' '] + body,
        probe_fault_of(status, words, body) is None <==> 200 <= status < 300,
        probe_fault_of(status, words, body) matches Some(f) ==> f.len() > body.len() && f.skip(
            f.len() - body.len(),
        ) == body,
        status == 401 ==> probe_fault_of(401, words, body) == Some(
            "Upstox returned 401 Unauthorized. Access token is expired or invalid. body="@ + body,
        ),
        !(200 <= status < 300) && status != 401 ==> probe_fault_of(status, words, body) == Some(
            "Upstox probe returned HTTP "@ + words + seq![':', ' '] + body,
        ),
{
    reveal_strlit(" http ");
    reveal_strlit(": ");
    reveal_strlit("Upstox returned 401 Unauthorized. Access token is expired or invalid. body=");
    assert(" http "@ =~= seq![' ', 'h', 't', 't', 'p', ' ']);
    assert(": "@ =~= seq![':', ' ']);
    if let Some(f) = probe_fault_of(status, words, body) {
        assert(f.skip(f.len() - body.len()) =~= body);
    }
}

/// The expiry that a row offers.
pub open spec fn expiry_of(row: JsonModel) -> Option<Seq<char>> {
    match row {
        JsonModel::Record(fields) => if fields.contains_key("expiry"@) {
            match fields["expiry"@] {
                JsonModel::Text(e) => Some(e),
                _ => None,
            }
        } else {
            None
        },
        _ => None,
    }
}

/// The nearest expiry is one that a row offers, is not past, and comes no later than
/// any other that is not past.
pub proof fn law_nearest_expiry_is_the_soonest(
    rows: Seq<JsonModel>,
    today: Seq<char>,
    expiry: Seq<char>,
    i: int,
)
    requires
        nearest(rows, today, expiry),
        0 <= i < rows.len(),
    ensures
        alphabetical(today, expiry),
        exists|k: int| 0 <= k < rows.len() && expiry_of(#[trigger] rows[k]) == Some(expiry),
        expiry_of(rows[i]) matches Some(e) && alphabetical(today, e) ==> alphabetical(
            expiry,
            expiry_of(rows[i])->0,
        ),
{
    let k = choose|k: int| 0 <= k < rows.len() && offers(#[trigger] rows[k], today, expiry);
    assert(expiry_of(rows[k]) == Some(expiry));
    if let Some(e) = expiry_of(rows[i]) {
        if alphabetical(today, e) {
            assert(offers(rows[i], today, e));
            assert(offered(rows, today, e));
        }
    }
}

/// Where no expiry is offered, every row is without one or past.
pub proof fn law_no_expiry_means_all_are_past(rows: Seq<JsonModel>, today: Seq<char>, i: int)
    requires
        forall|e: Seq<char>| !#[trigger] offered(rows, today, e),
        0 <= i < rows.len(),
    ensures
        expiry_of(rows[i]) matches Some(e) ==> !alphabetical(today, e),
{
    if let Some(e) = expiry_of(rows[i]) {
        assert(!offered(rows, today, e));
        assert(!offers(rows[i], today, e));
    }
}

/// The data of a reply are what stands under `data`: a list of rows, or a record of
/// instruments.
pub proof fn law_data_stand_under_their_name(
    reply: Map<Seq<char>, JsonModel>,
    rows: Seq<JsonModel>,
    fields: Map<Seq<char>, JsonModel>,
)
    ensures
        reply.contains_key("data"@) && reply["data"@] == JsonModel::List(rows) ==> data_list(
            JsonModel::Record(reply),
        ) == Some(rows) && data_record(JsonModel::Record(reply)) is None,
        reply.contains_key("data"@) && reply["data"@] == JsonModel::Record(fields) ==> data_record(
            JsonModel::Record(reply),
        ) == Some(fields) && data_list(JsonModel::Record(reply)) is None,
        !reply.contains_key("data"@) ==> data_list(JsonModel::Record(reply)) is None
            && data_record(JsonModel::Record(reply)) is None,
{
}

/// The token that a member of a reply names.
pub open spec fn token_of(member: JsonModel) -> Option<Seq<char>> {
    match member {
        JsonModel::Record(fields) => if fields.contains_key("instrument_token"@) {
            match fields["instrument_token"@] {
                JsonModel::Text(t) => Some(t),
                _ => None,
            }
        } else {
            None
        },
        _ => None,
    }
}

/// Each item shows a member of the reply as it stands there, for an instrument that
/// was asked for and that no other item is for. A member that names the instrument as
/// its token comes before one that is only filed under it, and of several the one with
/// the last key.
pub proof fn law_items_show_their_members(
    items: Seq<DataItem>,
    fields: Map<Seq<char>, JsonModel>,
    asked: Seq<Seq<char>>,
    i: int,
    key: Seq<char>,
)
    requires
        extracts(items, fields, asked),
        0 <= i < items.len(),
    ensures
        asked.contains(items[i].instrument@),
        fields.contains_key(items[i].data_key@),
        value_model(items[i].value) == fields[items[i].data_key@],
        fields.contains_key(key) && token_of(fields[key]) == Some(items[i].instrument@) ==> token_of(
            fields[items[i].data_key@],
        ) == Some(items[i].instrument@) && alphabetical(key, items[i].data_key@),
        token_of(fields[items[i].data_key@]) != Some(items[i].instrument@) ==> {
            let dk = items[i].data_key@;
            let instrument = items[i].instrument@;
            &&& dk.len() == instrument.len()
            &&& forall|k: int|
                0 <= k < dk.len() ==> #[trigger] dk[k] == (if instrument[k] == '|' {
                    ':'
                } else {
                    instrument[k]
                })
        },
{
    let item = items[i];
    assert(holds(fields, item));
    if fields.contains_key(key) && token_of(fields[key]) == Some(item.instrument@) {
        assert(named_by(fields, key, item.instrument@));
        assert(named(fields, item.instrument@));
    }
}

/// An instrument that was asked for has an item where a member names it as its token,
/// or stands under its key with a colon for the bar.
pub proof fn law_asked_instruments_are_found(
    items: Seq<DataItem>,
    fields: Map<Seq<char>, JsonModel>,
    asked: Seq<Seq<char>>,
    k: int,
    key: Seq<char>,
)
    requires
        extracts(items, fields, asked),
        0 <= k < asked.len(),
        fields.contains_key(key),
        token_of(fields[key]) == Some(asked[k]) || (key.len() == asked[k].len() && forall|j: int|
            0 <= j < key.len() ==> #[trigger] key[j] == (if asked[k][j] == '|' {
                ':'
            } else {
                asked[k][j]
            })),
    ensures
        exists|i: int| 0 <= i < items.len() && (#[trigger] items[i]).instrument@ == asked[k],
{
    if token_of(fields[key]) == Some(asked[k]) {
        assert(named_by(fields, key, asked[k]));
        assert(named(fields, asked[k]));
    } else {
        assert(key =~= colon_key(asked[k]));
    }
    assert(has_instrument(fields, asked[k]));
    assert(listed(items, asked[k]));
}

/// An item goes by the symbol that it states, else by its trading symbol, else by what
/// stands behind the colon of its key.
pub proof fn law_symbols_are_found_in_turn(
    fields: Map<Seq<char>, JsonModel>,
    symbol: Seq<char>,
    head: Seq<char>,
    tail: Seq<char>,
    key: Seq<char>,
)
    requires
        !head.contains(':'),
    ensures
        fields.contains_key("symbol"@) && fields["symbol"@] == JsonModel::Text(symbol)
            ==> trading_symbol(JsonModel::Record(fields), key) == symbol,
        !fields.contains_key("symbol"@) && fields.contains_key("trading_symbol"@)
            && fields["trading_symbol"@] == JsonModel::Text(symbol) ==> trading_symbol(
            JsonModel::Record(fields),
            key,
        ) == symbol,
        !fields.contains_key("symbol"@) && !fields.contains_key("trading_symbol"@)
            ==> trading_symbol(JsonModel::Record(fields), head.push(':') + tail) == tail
            && trading_symbol(JsonModel::Record(fields), head) == "UNKNOWN"@,
{
    law_tail_follows_the_first(head, ':', tail);
}

/// An underlying goes by what stands behind the bar of its key, or by all of it.
pub proof fn law_underlyings_go_by_their_name(head: Seq<char>, name: Seq<char>)
    requires
        !head.contains('|'),
    ensures
        display_name(head.push('|') + name) == name,
        display_name(head) == head,
{
    law_tail_follows_the_first(head, '|', name);
}

/// A price is read under `last_price`, and only where that is missing under `ltp`; the
/// figures of an option side under its `market_data`; the best level of a side as the
/// first of its depth.
pub proof fn law_quotes_are_found_by_name(
    fields: Map<Seq<char>, JsonModel>,
    inner: Map<Seq<char>, JsonModel>,
    levels: Seq<JsonModel>,
    side: Seq<char>,
)
    ensures
        fields.contains_key("last_price"@) ==> price_in(JsonModel::Record(fields)) == Some(
            fields["last_price"@],
        ),
        !fields.contains_key("last_price"@) && fields.contains_key("ltp"@) ==> price_in(
            JsonModel::Record(fields),
        ) == Some(fields["ltp"@]),
        !fields.contains_key("last_price"@) && !fields.contains_key("ltp"@) ==> price_in(
            JsonModel::Record(fields),
        ) is None,
        fields.contains_key(side) && fields[side] == JsonModel::Record(inner)
            && inner.contains_key("market_data"@) ==> side_data(JsonModel::Record(fields), side)
            == Some(inner["market_data"@]),
        !fields.contains_key(side) ==> side_data(JsonModel::Record(fields), side) is None,
        fields.contains_key("depth"@) && fields["depth"@] == JsonModel::Record(inner)
            && inner.contains_key(side) && inner[side] == JsonModel::List(levels) ==> depth_top(
            JsonModel::Record(fields),
            side,
        ) == (if levels.len() > 0 {
            Some(levels[0])
        } else {
            None
        }),
        !fields.contains_key("depth"@) ==> depth_top(JsonModel::Record(fields), side) is None,
{
}

/// A tick that is known by its prices and the time has them where every tick has them,
/// and zeros for the rest.
pub proof fn law_bare_ticks_are_laid_out(
    symbol_id: u32,
    ltp_paise: i64,
    bid_paise: i64,
    ask_paise: i64,
    ts_ns: i64,
)
    ensures
        ({
            let b = bare_tick_bytes(symbol_id, ltp_paise, bid_paise, ask_paise, ts_ns);
            &&& b.len() == 85
            &&& half_at(b, 16) == symbol_id
            &&& is_word_of(word_at(b, 21), ltp_paise)
            &&& is_word_of(word_at(b, 29), bid_paise)
            &&& is_word_of(word_at(b, 37), ask_paise)
            &&& word_at(b, 45) == 0 && word_at(b, 53) == 0 && word_at(b, 61) == 0
            &&& is_word_of(word_at(b, 69), ts_ns)
            &&& is_word_of(word_at(b, 77), ts_ns)
        }),
{
    let tick = Tick {
        correlation_id: [0u8, 0, 0, 0, 0, 0, 0, 0, 0, 0, 0, 0, 0, 0, 0, 0],
        symbol: symbol_id,
        exchange: 0,
        ltp_paise,
        bid_paise,
        ask_paise,
        ltq: 0,
        total_buy_qty: 0,
        total_sell_qty: 0,
        ts_exchange_ns: pattern(ts_ns) as u64,
        ts_recv_ns: pattern(ts_ns) as u64,
    };
    assert(tick.correlation_id@ =~= Seq::new(16, |i: int| 0u8));
    law_encoded_tick_layout(tick);
    assert(bare_tick_bytes(symbol_id, ltp_paise, bid_paise, ask_paise, ts_ns) =~= tick_bytes(tick));
}

/// A message that shows a price shows it for the trade and for both sides, under the
/// symbol and the time given.
pub proof fn law_price_messages_show_the_price(
    message: FeedMessage,
    subject: Seq<char>,
    symbol: Seq<char>,
    price: i64,
    at: i64,
)
    requires
        shows_price(message, subject, symbol, price, at),
    ensures
        message is Tick,
        message->Tick_subject@ == subject,
        message->Tick_symbol@ == symbol,
        message->ltp_paise == price,
        message->Tick_bid_paise == price,
        message->Tick_ask_paise == price,
        message->ts_recv_ns == at,
{
}

/// A message that shows a book has each side's price and quantity in its place.
pub proof fn law_book_messages_show_both_sides(
    message: FeedMessage,
    subject: Seq<char>,
    symbol: Seq<char>,
    bid: BestLevel,
    ask: BestLevel,
    at: i64,
)
    requires
        shows_book(message, subject, symbol, bid, ask, at),
    ensures
        message is Book,
        message->Book_subject@ == subject,
        message->Book_symbol@ == symbol,
        message->Book_bid_paise == bid.paise,
        message->bid_qty == bid.qty,
        message->Book_ask_paise == ask.paise,
        message->ask_qty == ask.qty,
        message->ts_ns == at,
{
}

} // verus!
