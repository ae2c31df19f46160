//! The fixed-layout binary form of a tick.
//!
//! Little-endian, in order: correlation id (16 bytes), symbol (4), exchange (1),
//! last, bid and ask price, last quantity, total buy and sell quantity, exchange
//! and receive time (8 each).
use crate::base::schema::Tick;
use crate::base::wire::{
    byte_of, from_pattern, get_u32_le, get_u64_le, half_at, law_bytes_count_by_place, le_bytes,
    le_value, lemma_le_len, lemma_le_rewrite, lemma_le_round_trip, lemma_spans, pattern, put_le,
    signed_byte, to_pattern, unpattern, word_at,
};
use vstd::prelude::*;

verus! {

/// Size of an encoded tick.
pub const TICK_WIRE_SIZE: usize = 85;

/// The encoding of a tick.
pub open spec fn tick_bytes(t: Tick) -> Seq<u8> {
    t.correlation_id@ + le_bytes(t.symbol as nat, 4) + seq![byte_of(t.exchange)] + le_bytes(
        pattern(t.ltp_paise),
        8,
    ) + le_bytes(pattern(t.bid_paise), 8) + le_bytes(pattern(t.ask_paise), 8) + le_bytes(
        t.ltq as nat,
        8,
    ) + le_bytes(t.total_buy_qty as nat, 8) + le_bytes(t.total_sell_qty as nat, 8) + le_bytes(
        t.ts_exchange_ns as nat,
        8,
    ) + le_bytes(t.ts_recv_ns as nat, 8)
}

/// Whether a tick is what the bytes spell.
pub open spec fn spells(bytes: Seq<u8>, t: Tick) -> bool {
    &&& t.correlation_id@ == bytes.subrange(0, 16)
    &&& t.symbol == le_value(bytes.subrange(16, 20))
    &&& t.exchange == signed_byte(bytes[20])
    &&& t.ltp_paise == unpattern(le_value(bytes.subrange(21, 29)))
    &&& t.bid_paise == unpattern(le_value(bytes.subrange(29, 37)))
    &&& t.ask_paise == unpattern(le_value(bytes.subrange(37, 45)))
    &&& t.ltq == le_value(bytes.subrange(45, 53))
    &&& t.total_buy_qty == le_value(bytes.subrange(53, 61))
    &&& t.total_sell_qty == le_value(bytes.subrange(61, 69))
    &&& t.ts_exchange_ns == le_value(bytes.subrange(69, 77))
    &&& t.ts_recv_ns == le_value(bytes.subrange(77, 85))
}

/// The byte of a small signed number.
fn exchange_byte(x: i8) -> (b: u8)
    ensures
        b == byte_of(x),
{
    if x >= 0 {
        x as u8
    } else {
        (x as i16 + 256) as u8
    }
}

/// Encode a tick.
pub fn tick_to_raw_bytes(tick: &Tick) -> (bytes: Vec<u8>)
    ensures
        bytes@ == tick_bytes(*tick),
        bytes@.len() == TICK_WIRE_SIZE,
{
    let mut buf: Vec<u8> = Vec::new();
    let mut i: usize = 0;
    while i < 16
        invariant
            i <= 16,
            buf@ == tick.correlation_id@.take(i as int),
        decreases 16 - i,
    {
        buf.push(tick.correlation_id[i]);
        i = i + 1;
        assert(tick.correlation_id@.take(i as int) =~= tick.correlation_id@.take(i - 1).push(
            tick.correlation_id@[i - 1],
        ));
    }
    assert(buf@ =~= tick.correlation_id@);
    put_le(&mut buf, tick.symbol as u128, 4);
    let ghost before = buf@;
    buf.push(exchange_byte(tick.exchange));
    assert(buf@ =~= before + seq![byte_of(tick.exchange)]);
    put_le(&mut buf, to_pattern(tick.ltp_paise) as u128, 8);
    put_le(&mut buf, to_pattern(tick.bid_paise) as u128, 8);
    put_le(&mut buf, to_pattern(tick.ask_paise) as u128, 8);
    put_le(&mut buf, tick.ltq as u128, 8);
    put_le(&mut buf, tick.total_buy_qty as u128, 8);
    put_le(&mut buf, tick.total_sell_qty as u128, 8);
    put_le(&mut buf, tick.ts_exchange_ns as u128, 8);
    put_le(&mut buf, tick.ts_recv_ns as u128, 8);
    proof {
        lemma_tick_len(*tick);
    }
    buf
}

/// Decode a tick. Anything but a string of exactly the wire size is refused.
pub fn decode_tick(bytes: &[u8]) -> (tick: Option<Tick>)
    ensures
        match tick {
            Some(t) => bytes@.len() == TICK_WIRE_SIZE && spells(bytes@, t),
            None => bytes@.len() != TICK_WIRE_SIZE,
        },
{
    if bytes.len() != TICK_WIRE_SIZE {
        return None;
    }
    let mut correlation_id: [u8; 16] = [0u8;16];
    let mut i: usize = 0;
    while i < 16
        invariant
            i <= 16,
            bytes@.len() == TICK_WIRE_SIZE,
            forall|j: int| 0 <= j < i ==> correlation_id@[j] == bytes@[j],
        decreases 16 - i,
    {
        correlation_id[i] = bytes[i];
        i = i + 1;
    }
    assert(correlation_id@ =~= bytes@.subrange(0, 16));
    let e: u8 = bytes[20];
    let exchange: i8 = if e < 128 {
        e as i8
    } else {
        (e as i16 - 256) as i8
    };
    Some(
        Tick {
            correlation_id,
            symbol: get_u32_le(bytes, 16),
            exchange,
            ltp_paise: from_pattern(get_u64_le(bytes, 21)),
            bid_paise: from_pattern(get_u64_le(bytes, 29)),
            ask_paise: from_pattern(get_u64_le(bytes, 37)),
            ltq: get_u64_le(bytes, 45),
            total_buy_qty: get_u64_le(bytes, 53),
            total_sell_qty: get_u64_le(bytes, 61),
            ts_exchange_ns: get_u64_le(bytes, 69),
            ts_recv_ns: get_u64_le(bytes, 77),
        },
    )
}

proof fn lemma_tick_len(t: Tick)
    ensures
        tick_bytes(t).len() == TICK_WIRE_SIZE,
        forall|n: nat, len: nat| (#[trigger] le_bytes(n, len)).len() == len,
{
    assert forall|n: nat, len: nat| (#[trigger] le_bytes(n, len)).len() == len by {
        lemma_le_len(n, len);
    }
}

/// Decoding an encoded tick gives the tick back, field by field.
pub proof fn law_decode_after_encode(t: Tick)
    ensures
        tick_bytes(t).len() == TICK_WIRE_SIZE,
        spells(tick_bytes(t), t),
{
    lemma_tick_len(t);
    lemma_spans();
    let b = tick_bytes(t);
    lemma_field(b, 16, t.symbol as nat, 4);
    lemma_field(b, 21, pattern(t.ltp_paise), 8);
    lemma_field(b, 29, pattern(t.bid_paise), 8);
    lemma_field(b, 37, pattern(t.ask_paise), 8);
    lemma_field(b, 45, t.ltq as nat, 8);
    lemma_field(b, 53, t.total_buy_qty as nat, 8);
    lemma_field(b, 61, t.total_sell_qty as nat, 8);
    lemma_field(b, 69, t.ts_exchange_ns as nat, 8);
    lemma_field(b, 77, t.ts_recv_ns as nat, 8);
    assert(b.subrange(0, 16) =~= t.correlation_id@);
}

/// Encoding a decoded tick gives the bytes back.
pub proof fn law_encode_after_decode(bytes: Seq<u8>, t: Tick)
    requires
        bytes.len() == TICK_WIRE_SIZE,
        spells(bytes, t),
    ensures
        tick_bytes(t) == bytes,
{
    lemma_tick_len(t);
    lemma_spans();
    lemma_le_rewrite(bytes.subrange(16, 20));
    lemma_le_rewrite(bytes.subrange(21, 29));
    lemma_le_rewrite(bytes.subrange(29, 37));
    lemma_le_rewrite(bytes.subrange(37, 45));
    lemma_le_rewrite(bytes.subrange(45, 53));
    lemma_le_rewrite(bytes.subrange(53, 61));
    lemma_le_rewrite(bytes.subrange(61, 69));
    lemma_le_rewrite(bytes.subrange(69, 77));
    lemma_le_rewrite(bytes.subrange(77, 85));
    assert(tick_bytes(t) =~= bytes);
}

proof fn lemma_field(b: Seq<u8>, at: int, n: nat, len: nat)
    requires
        n < crate::base::wire::span(len),
        0 <= at,
        at + len <= b.len(),
        forall|i: int| 0 <= i < len ==> b[at + i] == le_bytes(n, len)[i],
    ensures
        le_value(b.subrange(at, at + len)) == n,
{
    lemma_le_len(n, len);
    assert(b.subrange(at, at + len) =~= le_bytes(n, len));
    lemma_le_round_trip(n, len);
}

/// Whether a word is the pattern of a signed number.
pub open spec fn is_word_of(word: int, x: i64) -> bool {
    word == x || word == x + 0x1_0000_0000_0000_0000
}

/// Where each field of a tick stands in its bytes: the id first, then the symbol, the
/// exchange, the last, bid and ask price, the quantities and the times.
pub proof fn law_tick_layout(b: Seq<u8>, t: Tick)
    requires
        b.len() == 85,
        spells(b, t),
    ensures
        forall|i: int| 0 <= i < 16 ==> #[trigger] t.correlation_id@[i] == b[i],
        t.symbol == half_at(b, 16),
        t.exchange == b[20] || t.exchange == b[20] - 256,
        is_word_of(word_at(b, 21), t.ltp_paise),
        is_word_of(word_at(b, 29), t.bid_paise),
        is_word_of(word_at(b, 37), t.ask_paise),
        t.ltq == word_at(b, 45),
        t.total_buy_qty == word_at(b, 53),
        t.total_sell_qty == word_at(b, 61),
        t.ts_exchange_ns == word_at(b, 69),
        t.ts_recv_ns == word_at(b, 77),
{
    law_bytes_count_by_place(b, 16);
    law_bytes_count_by_place(b, 21);
    law_bytes_count_by_place(b, 29);
    law_bytes_count_by_place(b, 37);
    law_bytes_count_by_place(b, 45);
    law_bytes_count_by_place(b, 53);
    law_bytes_count_by_place(b, 61);
    law_bytes_count_by_place(b, 69);
    law_bytes_count_by_place(b, 77);
}

/// An encoded tick has eighty-five bytes, laid out in that order.
pub proof fn law_encoded_tick_layout(t: Tick)
    ensures
        tick_bytes(t).len() == 85,
        t.symbol == half_at(tick_bytes(t), 16),
        is_word_of(word_at(tick_bytes(t), 21), t.ltp_paise),
        is_word_of(word_at(tick_bytes(t), 29), t.bid_paise),
        is_word_of(word_at(tick_bytes(t), 37), t.ask_paise),
        t.ltq == word_at(tick_bytes(t), 45),
        t.total_buy_qty == word_at(tick_bytes(t), 53),
        t.total_sell_qty == word_at(tick_bytes(t), 61),
        t.ts_exchange_ns == word_at(tick_bytes(t), 69),
        t.ts_recv_ns == word_at(tick_bytes(t), 77),
{
    law_decode_after_encode(t);
    law_tick_layout(tick_bytes(t), t);
}

} // verus!
