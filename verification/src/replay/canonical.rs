//! A reproducible session for regression runs.
use crate::base::wire::{be_bytes, lemma_be_len, put_be};
use crate::replay::record::{AISource, RecordKind, RecordModel, ReplayRecord};
use vstd::prelude::*;

verus! {

/// Monotonic time of the first record.
pub const ANCHOR_MONOTONIC_NS: u64 = 5_000_000;

/// Wall clock of the first record.
pub const ANCHOR_WALLCLOCK_NS: i64 = 1_764_493_200_000_000_000;

/// Time from one record to the next.
pub const TICK_GAP_NS: u64 = 1_000_000;

/// The kind of the record at a place: a cycle of ten, two ticks to begin with.
pub open spec fn cyclic_kind(i: int) -> RecordKind {
    let k = i % 10;
    if k <= 1 {
        RecordKind::Tick
    } else if k == 2 {
        RecordKind::SignalEmitted
    } else if k == 3 {
        RecordKind::RiskDecision
    } else if k == 4 {
        RecordKind::OrderSubmitted
    } else if k == 5 {
        RecordKind::OrderModified
    } else if k == 6 {
        RecordKind::Fill
    } else if k == 7 {
        RecordKind::OrderCancelled
    } else if k == 8 {
        RecordKind::AIDecision(AISource::Ranking)
    } else {
        RecordKind::MarketConditionSnapshot
    }
}

/// The kind of the record at a place.
pub fn kind_for_index(i: u64) -> (kind: RecordKind)
    ensures
        kind == cyclic_kind(i as int),
{
    match i % 10 {
        0 => RecordKind::Tick,
        1 => RecordKind::Tick,
        2 => RecordKind::SignalEmitted,
        3 => RecordKind::RiskDecision,
        4 => RecordKind::OrderSubmitted,
        5 => RecordKind::OrderModified,
        6 => RecordKind::Fill,
        7 => RecordKind::OrderCancelled,
        8 => RecordKind::AIDecision(AISource::Ranking),
        _ => RecordKind::MarketConditionSnapshot,
    }
}

/// The number of a kind.
pub open spec fn kind_number(kind: RecordKind) -> u8 {
    match kind {
        RecordKind::Tick => 0,
        RecordKind::OrderBook => 1,
        RecordKind::OpenInterest => 2,
        RecordKind::NewsEvent => 3,
        RecordKind::SignalEmitted => 4,
        RecordKind::RiskDecision => 5,
        RecordKind::OrderSubmitted => 6,
        RecordKind::OrderModified => 7,
        RecordKind::OrderCancelled => 8,
        RecordKind::Fill => 9,
        RecordKind::TraderAction => 10,
        RecordKind::AIDecision(_) => 11,
        RecordKind::MarketConditionSnapshot => 12,
    }
}

/// The number of a kind.
pub fn kind_discriminant(kind: &RecordKind) -> (n: u8)
    ensures
        n == kind_number(*kind),
{
    match kind {
        RecordKind::Tick => 0,
        RecordKind::OrderBook => 1,
        RecordKind::OpenInterest => 2,
        RecordKind::NewsEvent => 3,
        RecordKind::SignalEmitted => 4,
        RecordKind::RiskDecision => 5,
        RecordKind::OrderSubmitted => 6,
        RecordKind::OrderModified => 7,
        RecordKind::OrderCancelled => 8,
        RecordKind::Fill => 9,
        RecordKind::TraderAction => 10,
        RecordKind::AIDecision(_) => 11,
        RecordKind::MarketConditionSnapshot => 12,
    }
}

/// A number that varies with the place and the kind.
pub open spec fn mixed(seq: u64, kind: u8) -> u64 {
    let x = seq.wrapping_mul(0x9E37_79B9_7F4A_7C15) ^ (kind as u64);
    (x ^ (x >> 27)).wrapping_mul(0x94D0_49BB_1331_11EB)
}

/// The payload at a place: the place, the kind four times, and the low 32 bits of
/// the mixed number.
pub open spec fn canonical_payload(seq: u64, kind: u8) -> Seq<u8> {
    be_bytes(seq as nat, 8) + seq![kind, kind, kind, kind] + be_bytes(
        mixed(seq, kind) as nat,
        4,
    )
}

/// The payload at a place.
pub fn payload_for(seq: u64, kind: u8) -> (payload: Vec<u8>)
    ensures
        payload@ == canonical_payload(seq, kind),
        payload@.len() == 16,
{
    let mut buf: Vec<u8> = Vec::new();
    put_be(&mut buf, seq as u128, 8);
    let ghost head = buf@;
    buf.push(kind);
    buf.push(kind);
    buf.push(kind);
    buf.push(kind);
    assert(buf@ =~= be_bytes(seq as nat, 8) + seq![kind, kind, kind, kind]);
    let x: u64 = seq.wrapping_mul(0x9E37_79B9_7F4A_7C15) ^ (kind as u64);
    let y: u64 = (x ^ (x >> 27)).wrapping_mul(0x94D0_49BB_1331_11EB);
    put_be(&mut buf, y as u128, 4);
    proof {
        lemma_be_len(seq as nat, 8);
        lemma_be_len(mixed(seq, kind) as nat, 4);
    }
    buf
}

/// The record at a place.
pub open spec fn canonical_model(session_id: u64, i: u64) -> RecordModel {
    RecordModel {
        session_id,
        sequence_no: i,
        monotonic_ns: (ANCHOR_MONOTONIC_NS + i * TICK_GAP_NS) as u64,
        wallclock_utc: (ANCHOR_WALLCLOCK_NS + i * TICK_GAP_NS) as i64,
        kind: cyclic_kind(i as int),
        payload: canonical_payload(i, kind_number(cyclic_kind(i as int))),
    }
}

/// The record at a place, as far as its times fit.
pub fn canonical_record(session_id: u64, i: u64) -> (r: ReplayRecord)
    requires
        ANCHOR_WALLCLOCK_NS + i * TICK_GAP_NS <= i64::MAX,
    ensures
        r@ == canonical_model(session_id, i),
{
    let kind = kind_for_index(i);
    let number: u8 = kind_discriminant(&kind);
    ReplayRecord {
        session_id,
        sequence_no: i,
        monotonic_ns: ANCHOR_MONOTONIC_NS + i * TICK_GAP_NS,
        wallclock_utc: ANCHOR_WALLCLOCK_NS + (i as i64) * (TICK_GAP_NS as i64),
        kind,
        payload: payload_for(i, number),
    }
}

/// The times of consecutive records lie one gap apart.
pub proof fn law_records_are_evenly_spaced(session_id: u64, i: u64)
    requires
        ANCHOR_WALLCLOCK_NS + (i + 1) * TICK_GAP_NS <= i64::MAX,
    ensures
        canonical_model(session_id, (i + 1) as u64).monotonic_ns - canonical_model(
            session_id,
            i,
        ).monotonic_ns == TICK_GAP_NS,
        canonical_model(session_id, (i + 1) as u64).sequence_no == canonical_model(
            session_id,
            i,
        ).sequence_no + 1,
{
}

} // verus!
