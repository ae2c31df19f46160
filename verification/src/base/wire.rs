//! Fixed-width integers on the wire.
use vstd::prelude::*;

verus! {

/// The `len` low-order bytes of `n`, least significant first.
pub open spec fn le_bytes(n: nat, len: nat) -> Seq<u8>
    decreases len,
{
    if len == 0 {
        Seq::empty()
    } else {
        seq![(n % 256) as u8] + le_bytes(n / 256, (len - 1) as nat)
    }
}

/// The number that bytes spell, least significant first.
pub open spec fn le_value(bytes: Seq<u8>) -> nat
    decreases bytes.len(),
{
    if bytes.len() == 0 {
        0
    } else {
        bytes[0] as nat + 256 * le_value(bytes.skip(1))
    }
}

/// The `len` low-order bytes of `n`, most significant first.
pub open spec fn be_bytes(n: nat, len: nat) -> Seq<u8> {
    le_bytes(n, len).reverse()
}

/// The number that bytes spell, most significant first.
pub open spec fn be_value(bytes: Seq<u8>) -> nat {
    le_value(bytes.reverse())
}

/// How many numbers `len` bytes can spell.
pub open spec fn span(len: nat) -> nat
    decreases len,
{
    if len == 0 {
        1
    } else {
        256 * span((len - 1) as nat)
    }
}

/// The 64-bit pattern of a signed number.
pub open spec fn pattern(x: i64) -> nat {
    if x >= 0 {
        x as nat
    } else {
        (x + 0x1_0000_0000_0000_0000) as nat
    }
}

/// The signed number of a 64-bit pattern.
pub open spec fn unpattern(n: nat) -> int {
    if n < 0x8000_0000_0000_0000 {
        n as int
    } else {
        n - 0x1_0000_0000_0000_0000
    }
}

/// The signed number of a byte.
pub open spec fn signed_byte(b: u8) -> int {
    if b < 128 {
        b as int
    } else {
        b - 256
    }
}

/// The byte of a small signed number.
pub open spec fn byte_of(x: i8) -> u8 {
    if x >= 0 {
        x as u8
    } else {
        (x + 256) as u8
    }
}

pub proof fn lemma_le_len(n: nat, len: nat)
    ensures
        le_bytes(n, len).len() == len,
    decreases len,
{
    if len > 0 {
        lemma_le_len(n / 256, (len - 1) as nat);
    }
}

/// Reading back what was written gives the number, as far as it fits.
pub proof fn lemma_le_round_trip(n: nat, len: nat)
    requires
        n < span(len),
    ensures
        le_value(le_bytes(n, len)) == n,
    decreases len,
{
    if len > 0 {
        lemma_le_round_trip(n / 256, (len - 1) as nat);
        lemma_le_len(n / 256, (len - 1) as nat);
        assert(le_bytes(n, len).skip(1) =~= le_bytes(n / 256, (len - 1) as nat));
    }
}

/// Writing back what was read gives the bytes.
pub proof fn lemma_le_rewrite(bytes: Seq<u8>)
    ensures
        le_bytes(le_value(bytes), bytes.len()) == bytes,
        le_value(bytes) < span(bytes.len()),
    decreases bytes.len(),
{
    if bytes.len() > 0 {
        lemma_le_rewrite(bytes.skip(1));
        let v = le_value(bytes.skip(1));
        assert(le_value(bytes) % 256 == bytes[0]);
        assert(le_value(bytes) / 256 == v);
        assert(le_bytes(le_value(bytes), bytes.len()) =~= bytes) by {
            assert(bytes =~= seq![bytes[0]] + bytes.skip(1));
        }
    } else {
        assert(le_bytes(0, 0) =~= bytes);
    }
}

pub proof fn lemma_be_len(n: nat, len: nat)
    ensures
        be_bytes(n, len).len() == len,
{
    lemma_le_len(n, len);
}

pub proof fn lemma_be_round_trip(n: nat, len: nat)
    requires
        n < span(len),
    ensures
        be_value(be_bytes(n, len)) == n,
{
    lemma_le_round_trip(n, len);
    assert(le_bytes(n, len).reverse().reverse() =~= le_bytes(n, len));
}

pub proof fn lemma_spans()
    ensures
        span(4) == 0x1_0000_0000,
        span(8) == 0x1_0000_0000_0000_0000,
        span(16) == 0x1_0000_0000_0000_0000_0000_0000_0000_0000,
{
    reveal_with_fuel(span, 17);
}

/// Append the `len` low-order bytes of `x`, least significant first.
pub fn put_le(buf: &mut Vec<u8>, x: u128, len: usize)
    ensures
        final(buf)@ == old(buf)@ + le_bytes(x as nat, len as nat),
{
    let mut cur: u128 = x;
    let mut left: usize = len;
    while left > 0
        invariant
            left <= len,
            buf@ + le_bytes(cur as nat, left as nat) == old(buf)@ + le_bytes(
                x as nat,
                len as nat,
            ),
        decreases left,
    {
        let ghost before = buf@;
        let ghost rest = le_bytes((cur / 256) as nat, (left - 1) as nat);
        buf.push((cur % 256) as u8);
        assert(le_bytes(cur as nat, left as nat) == seq![(cur % 256) as u8] + rest);
        assert(buf@ + rest =~= before + (seq![(cur % 256) as u8] + rest));
        cur = cur / 256;
        left = left - 1;
    }
    assert(buf@ + le_bytes(cur as nat, 0) =~= buf@);
}

/// Append the `len` low-order bytes of `x`, most significant first.
pub fn put_be(buf: &mut Vec<u8>, x: u128, len: usize)
    ensures
        final(buf)@ == old(buf)@ + be_bytes(x as nat, len as nat),
{
    let mut small: Vec<u8> = Vec::new();
    put_le(&mut small, x, len);
    proof {
        assert(small@ =~= le_bytes(x as nat, len as nat));
        lemma_le_len(x as nat, len as nat);
    }
    let mut left: usize = len;
    while left > 0
        invariant
            left <= len,
            small@.len() == len,
            buf@ == old(buf)@ + small@.reverse().take(len - left),
        decreases left,
    {
        left = left - 1;
        buf.push(small[left]);
        assert(small@.reverse().take(len - left) =~= small@.reverse().take(
            len - left - 1,
        ).push(small@[left as int]));
    }
    assert(small@.reverse().take(len as int) =~= small@.reverse());
}

/// Read four bytes at `at`, least significant first.
pub fn get_u32_le(bytes: &[u8], at: usize) -> (x: u32)
    requires
        at + 4 <= bytes@.len(),
    ensures
        x == le_value(bytes@.subrange(at as int, at + 4)),
{
    proof {
        lemma_le_value_4(bytes@.subrange(at as int, at + 4));
    }
    bytes[at] as u32 + 256 * bytes[at + 1] as u32 + 65536 * bytes[at + 2] as u32 + 16777216
        * bytes[at + 3] as u32
}

/// Read four bytes at `at`, most significant first.
pub fn get_u32_be(bytes: &[u8], at: usize) -> (x: u32)
    requires
        at + 4 <= bytes@.len(),
    ensures
        x == be_value(bytes@.subrange(at as int, at + 4)),
{
    proof {
        assert(bytes.len() == bytes@.len());
        lemma_le_value_4(bytes@.subrange(at as int, at + 4).reverse());
    }
    bytes[at + 3] as u32 + 256 * bytes[at + 2] as u32 + 65536 * bytes[at + 1] as u32 + 16777216
        * bytes[at] as u32
}

/// Read eight bytes at `at`, least significant first.
pub fn get_u64_le(bytes: &[u8], at: usize) -> (x: u64)
    requires
        at + 8 <= bytes@.len(),
    ensures
        x == le_value(bytes@.subrange(at as int, at + 8)),
{
    assert(bytes.len() == bytes@.len());
    let lo: u64 = get_u32_le(bytes, at) as u64;
    let hi: u64 = get_u32_le(bytes, at + 4) as u64;
    proof {
        let s = bytes@.subrange(at as int, at + 8);
        lemma_le_value_split(s, 4);
        lemma_spans();
        assert(s.take(4) =~= bytes@.subrange(at as int, at + 4));
        assert(s.skip(4) =~= bytes@.subrange(at + 4, at + 8));
    }
    lo + 0x1_0000_0000 * hi
}

/// Read eight bytes at `at`, most significant first.
pub fn get_u64_be(bytes: &[u8], at: usize) -> (x: u64)
    requires
        at + 8 <= bytes@.len(),
    ensures
        x == be_value(bytes@.subrange(at as int, at + 8)),
{
    assert(bytes.len() == bytes@.len());
    let hi: u64 = get_u32_be(bytes, at) as u64;
    let lo: u64 = get_u32_be(bytes, at + 4) as u64;
    proof {
        let s = bytes@.subrange(at as int, at + 8).reverse();
        lemma_le_value_split(s, 4);
        lemma_spans();
        assert(s.take(4) =~= bytes@.subrange(at + 4, at + 8).reverse());
        assert(s.skip(4) =~= bytes@.subrange(at as int, at + 4).reverse());
    }
    lo + 0x1_0000_0000 * hi
}

/// The pattern of a signed number as an unsigned one.
pub fn to_pattern(x: i64) -> (n: u64)
    ensures
        n == pattern(x),
{
    if x >= 0 {
        x as u64
    } else {
        (x as i128 + 0x1_0000_0000_0000_0000) as u64
    }
}

/// The signed number of an unsigned pattern.
pub fn from_pattern(n: u64) -> (x: i64)
    ensures
        x == unpattern(n as nat),
{
    if n < 0x8000_0000_0000_0000 {
        n as i64
    } else {
        (n as i128 - 0x1_0000_0000_0000_0000) as i64
    }
}

proof fn lemma_le_value_4(s: Seq<u8>)
    requires
        s.len() == 4,
    ensures
        le_value(s) == s[0] + 256 * s[1] + 65536 * s[2] + 16777216 * s[3],
{
    reveal_with_fuel(le_value, 5);
    assert(s.skip(1)[0] == s[1]);
    assert(s.skip(1).skip(1)[0] == s[2]);
    assert(s.skip(1).skip(1).skip(1)[0] == s[3]);
}

/// The value of a byte string from those of its two parts.
pub proof fn lemma_le_value_split(s: Seq<u8>, k: nat)
    requires
        k <= s.len(),
    ensures
        le_value(s) == le_value(s.take(k as int)) + span(k) * le_value(s.skip(k as int)),
    decreases k,
{
    if k == 0 {
        assert(s.skip(0) =~= s);
        assert(s.take(0).len() == 0);
        let one = span(k) as int;
        let v = le_value(s) as int;
        assert(one * v == v) by (nonlinear_arith)
            requires
                one == 1,
        ;
    } else {
        let t = s.skip(1);
        lemma_le_value_split(t, (k - 1) as nat);
        assert(s.take(k as int).skip(1) =~= t.take(k - 1));
        assert(s.skip(k as int) =~= t.skip(k - 1));
        let p = span((k - 1) as nat) as int;
        let w = le_value(s.skip(k as int)) as int;
        assert(span(k) == 256 * p);
        assert(256 * (p * w) == (256 * p) * w) by (nonlinear_arith);
        assert(le_value(s) == s[0] + 256 * le_value(t));
        assert(le_value(s.take(k as int)) == s[0] + 256 * le_value(t.take(k - 1)));
    }
}

/// The number that eight bytes spell, place by place.
pub open spec fn word_at(b: Seq<u8>, at: int) -> int {
    b[at] + 0x100 * b[at + 1] + 0x1_0000 * b[at + 2] + 0x100_0000 * b[at + 3] + 0x1_0000_0000 * b[at
        + 4] + 0x100_0000_0000 * b[at + 5] + 0x1_0000_0000_0000 * b[at + 6]
        + 0x100_0000_0000_0000 * b[at + 7]
}

/// The number that four bytes spell, place by place.
pub open spec fn half_at(b: Seq<u8>, at: int) -> int {
    b[at] + 0x100 * b[at + 1] + 0x1_0000 * b[at + 2] + 0x100_0000 * b[at + 3]
}

proof fn lemma_le_step(b: Seq<u8>, at: int, end: int)
    requires
        0 <= at < end <= b.len(),
    ensures
        le_value(b.subrange(at, end)) == b[at] + 256 * le_value(b.subrange(at + 1, end)),
        le_value(b.subrange(end, end)) == 0,
{
    assert(b.subrange(at, end).skip(1) =~= b.subrange(at + 1, end));
}

/// Bytes on the wire count by their place, the first the least.
pub proof fn law_bytes_count_by_place(b: Seq<u8>, at: int)
    requires
        0 <= at,
    ensures
        at + 8 <= b.len() ==> le_value(b.subrange(at, at + 8)) == word_at(b, at),
        at + 4 <= b.len() ==> le_value(b.subrange(at, at + 4)) == half_at(b, at),
        at + 4 <= b.len() ==> be_value(b.subrange(at, at + 4)) == b[at + 3] + 0x100 * b[at + 2]
            + 0x1_0000 * b[at + 1] + 0x100_0000 * b[at],
{
    if at + 8 <= b.len() {
        lemma_le_step(b, at, at + 8);
        lemma_le_step(b, at + 1, at + 8);
        lemma_le_step(b, at + 2, at + 8);
        lemma_le_step(b, at + 3, at + 8);
        lemma_le_step(b, at + 4, at + 8);
        lemma_le_step(b, at + 5, at + 8);
        lemma_le_step(b, at + 6, at + 8);
        lemma_le_step(b, at + 7, at + 8);
    }
    if at + 4 <= b.len() {
        lemma_le_step(b, at, at + 4);
        lemma_le_step(b, at + 1, at + 4);
        lemma_le_step(b, at + 2, at + 4);
        lemma_le_step(b, at + 3, at + 4);
        let r = b.subrange(at, at + 4).reverse();
        assert(r.subrange(0, 4) =~= r);
        lemma_le_step(r, 0, 4);
        lemma_le_step(r, 1, 4);
        lemma_le_step(r, 2, 4);
        lemma_le_step(r, 3, 4);
    }
}

/// A signed number and its pattern differ by nothing, or by the whole span of words
/// where it is below zero.
pub proof fn law_patterns_wrap_below_zero(x: i64)
    ensures
        x >= 0 ==> pattern(x) == x,
        x < 0 ==> pattern(x) == x + 0x1_0000_0000_0000_0000,
        unpattern(pattern(x)) == x,
{
}

} // verus!
