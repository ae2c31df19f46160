use crate::base::wire::{be_bytes, lemma_be_len, put_be};
use vstd::prelude::*;

verus! {

/// A price in paise, the hundredth part of a rupee.
#[derive(Clone, Copy, Debug, PartialEq, Eq, Hash, Structural)]
pub struct Px(pub i64);

impl Px {
    pub fn from_paise(paise: i64) -> (px: Px)
        ensures
            px.0 == paise,
    {
        Px(paise)
    }

    pub fn to_paise(&self) -> (paise: i64)
        ensures
            paise == self.0,
    {
        self.0
    }
}

/// The direction of an order, a fill or a book side.
#[derive(Clone, Copy, Debug, PartialEq, Eq, Hash, Structural)]
pub enum Side {
    Buy,
    Sell,
}

impl Side {
    /// The other side.
    pub open spec fn flipped(self) -> Side {
        match self {
            Side::Buy => Side::Sell,
            Side::Sell => Side::Buy,
        }
    }

    pub fn opposite(&self) -> (side: Side)
        ensures
            side == self.flipped(),
    {
        match self {
            Side::Buy => Side::Sell,
            Side::Sell => Side::Buy,
        }
    }
}

/// A process-wide symbol number. Zero stands for an unknown symbol.
#[derive(Clone, Copy, Debug, PartialEq, Eq, Hash, Structural)]
pub struct SymbolId(pub u32);

impl SymbolId {
    pub fn new(raw: u32) -> (id: SymbolId)
        ensures
            id.0 == raw,
    {
        SymbolId(raw)
    }

    pub fn raw(&self) -> (raw: u32)
        ensures
            raw == self.0,
    {
        self.0
    }
}

/// A trading session number.
#[derive(Clone, Copy, Debug, PartialEq, Eq, Hash, Structural)]
pub struct SessionId(pub u64);

impl SessionId {
    pub fn new(raw: u64) -> (id: SessionId)
        ensures
            id.0 == raw,
    {
        SessionId(raw)
    }

    pub fn raw(&self) -> (raw: u64)
        ensures
            raw == self.0,
    {
        self.0
    }
}

/// The identifier that every event descending from one tick carries.
#[derive(Clone, Copy, Debug, PartialEq, Eq, Hash, Structural)]
pub struct CorrelationId(pub u128);

impl CorrelationId {
    pub fn new(raw: u128) -> (id: CorrelationId)
        ensures
            id.0 == raw,
    {
        CorrelationId(raw)
    }

    pub fn as_u128(&self) -> (raw: u128)
        ensures
            raw == self.0,
    {
        self.0
    }
}

/// The sixteen bytes of a correlation id, most significant first.
pub fn correlation_bytes(id: CorrelationId) -> (bytes: [u8; 16])
    ensures
        bytes@ == be_bytes(id.0 as nat, 16),
{
    let mut buf: Vec<u8> = Vec::new();
    put_be(&mut buf, id.0, 16);
    proof {
        lemma_be_len(id.0 as nat, 16);
    }
    let mut bytes: [u8; 16] = [0;16];
    let mut i: usize = 0;
    while i < 16
        invariant
            i <= 16,
            buf@.len() == 16,
            bytes@.len() == 16,
            forall|k: int| 0 <= k < i ==> #[trigger] bytes@[k] == buf@[k],
        decreases 16 - i,
    {
        bytes[i] = buf[i];
        i = i + 1;
    }
    assert(bytes@ =~= buf@);
    bytes
}

} // verus!
