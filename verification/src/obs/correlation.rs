//! Correlation ids in hexadecimal.
use crate::base::types::{correlation_bytes, CorrelationId};
use crate::base::wire::{be_bytes, le_bytes, lemma_be_len};
use vstd::prelude::*;

verus! {

/// The field under which traces and logs carry the correlation id.
pub const FIELD_CORRELATION_ID: &'static str = "correlation_id";

/// The hexadecimal form of the id zero.
pub const EMPTY: &'static str = "00000000000000000000000000000000";

/// The hexadecimal digit of a number below sixteen, in lower case.
pub open spec fn hex_digit(d: int) -> char {
    if d < 10 {
        (48 + d) as char
    } else {
        (87 + d) as char
    }
}

/// The hexadecimal form of bytes, two digits each.
pub open spec fn hex(bytes: Seq<u8>) -> Seq<char>
    decreases bytes.len(),
{
    if bytes.len() == 0 {
        Seq::empty()
    } else {
        hex(bytes.drop_last()).push(hex_digit(bytes.last() as int / 16)).push(
            hex_digit(bytes.last() as int % 16),
        )
    }
}

/// The hexadecimal digit of a number below sixteen.
fn digit(d: u8) -> (c: char)
    requires
        d < 16,
    ensures
        c == hex_digit(d as int),
{
    if d < 10 {
        (48 + d) as char
    } else {
        (87 + d) as char
    }
}

/// The hexadecimal form of bytes.
pub fn hex_text(bytes: &[u8]) -> (text: String)
    ensures
        text@ == hex(bytes@),
{
    let mut text = String::new();
    let mut i: usize = 0;
    assert(bytes@.take(0) =~= Seq::empty());
    while i < bytes.len()
        invariant
            i <= bytes@.len(),
            text@ == hex(bytes@.take(i as int)),
        decreases bytes@.len() - i,
    {
        let b: u8 = bytes[i];
        text.push(digit(b / 16));
        text.push(digit(b % 16));
        assert(bytes@.take(i + 1).drop_last() =~= bytes@.take(i as int));
        i = i + 1;
    }
    assert(bytes@.take(i as int) =~= bytes@);
    text
}

/// Two digits stand for each byte.
pub proof fn lemma_hex_len(bytes: Seq<u8>)
    ensures
        hex(bytes).len() == 2 * bytes.len(),
    decreases bytes.len(),
{
    if bytes.len() > 0 {
        lemma_hex_len(bytes.drop_last());
    }
}

/// A correlation id that is shown in hexadecimal.
#[derive(Clone, Copy, Debug, PartialEq, Eq, Hash, Structural)]
pub struct CorrelationIdHex(pub CorrelationId);

impl CorrelationIdHex {
    /// The 32 digits of the id, most significant first.
    pub fn to_text(&self) -> (text: String)
        ensures
            text@ == hex(be_bytes(self.0.0 as nat, 16)),
            text@.len() == 32,
    {
        let bytes = correlation_bytes(self.0);
        proof {
            lemma_be_len(self.0.0 as nat, 16);
            lemma_hex_len(be_bytes(self.0.0 as nat, 16));
        }
        hex_text(bytes.as_slice())
    }
}

impl vstd::std_specs::convert::FromSpecImpl<CorrelationId> for CorrelationIdHex {
    open spec fn obeys_from_spec() -> bool {
        true
    }

    open spec fn from_spec(c: CorrelationId) -> CorrelationIdHex {
        CorrelationIdHex(c)
    }
}

impl From<CorrelationId> for CorrelationIdHex {
    fn from(c: CorrelationId) -> (h: CorrelationIdHex) {
        CorrelationIdHex(c)
    }
}

/// The bytes of zero are zero, and so are their digits.
proof fn lemma_zeros(len: nat)
    ensures
        le_bytes(0, len) == Seq::new(len, |i: int| 0u8),
        hex(Seq::new(len, |i: int| 0u8)) == Seq::new(2 * len, |i: int| '0'),
    decreases len,
{
    let zeros = Seq::new(len, |i: int| 0u8);
    if len > 0 {
        lemma_zeros((len - 1) as nat);
        assert(le_bytes(0, len) =~= zeros);
        assert(zeros.drop_last() =~= Seq::new((len - 1) as nat, |i: int| 0u8));
        assert(hex_digit(0) == '0');
        assert(hex(zeros) =~= Seq::new(2 * len, |i: int| '0'));
    } else {
        assert(le_bytes(0, len) =~= zeros);
        assert(hex(zeros) =~= Seq::new(2 * len, |i: int| '0'));
    }
}

/// The id zero is shown as the empty id.
pub proof fn law_zero_is_shown_as_empty()
    ensures
        hex(be_bytes(0, 16)) == EMPTY@,
{
    lemma_zeros(16);
    assert(be_bytes(0, 16) =~= Seq::new(16, |i: int| 0u8));
    reveal_strlit("00000000000000000000000000000000");
    assert(EMPTY@ =~= Seq::new(32, |i: int| '0'));
}

/// What a hexadecimal digit stands for.
pub open spec fn digit_value(c: char) -> int {
    if c <= '9' {
        c as int - 48
    } else {
        c as int - 87
    }
}

/// Different ids are shown differently.
pub proof fn law_hex_is_injective(a: Seq<u8>, b: Seq<u8>)
    requires
        hex(a) == hex(b),
    ensures
        a == b,
    decreases a.len(),
{
    lemma_hex_len(a);
    lemma_hex_len(b);
    if a.len() > 0 {
        let n = hex(a).len() as int;
        assert(hex(a).drop_last().drop_last() =~= hex(a.drop_last()));
        assert(hex(b).drop_last().drop_last() =~= hex(b.drop_last()));
        law_hex_is_injective(a.drop_last(), b.drop_last());
        let x = a.last() as int;
        let y = b.last() as int;
        assert(hex(a)[n - 2] == hex_digit(x / 16));
        assert(hex(a)[n - 1] == hex_digit(x % 16));
        assert(hex(b)[n - 2] == hex_digit(y / 16));
        assert(hex(b)[n - 1] == hex_digit(y % 16));
        assert(digit_value(hex_digit(x / 16)) == x / 16);
        assert(digit_value(hex_digit(y / 16)) == y / 16);
        assert(digit_value(hex_digit(x % 16)) == x % 16);
        assert(digit_value(hex_digit(y % 16)) == y % 16);
        assert(x == y);
        assert(a =~= a.drop_last().push(a.last()));
        assert(b =~= b.drop_last().push(b.last()));
    } else {
        assert(a =~= b);
    }
}

} // verus!
