//! Integer arithmetic with the rounding and overflow rules that the engines
//! rely on: truncating division, two's complement narrowing, clamping and
//! saturation.
use vstd::prelude::*;

verus! {

/// The quotient of `a` by a positive `b`, rounded toward zero.
pub open spec fn trunc_div(a: int, b: int) -> int {
    if a >= 0 {
        a / b
    } else {
        -((-a) / b)
    }
}

/// What is left of `x` when its low 64 bits are read as a two's complement
/// number.
pub open spec fn wrap_i64(x: int) -> int {
    (x + 0x8000_0000_0000_0000) % 0x1_0000_0000_0000_0000 - 0x8000_0000_0000_0000
}

/// The value of `i64` nearest to `x`.
pub open spec fn clamp_i64(x: int) -> int {
    if x > i64::MAX {
        i64::MAX as int
    } else if x < i64::MIN {
        i64::MIN as int
    } else {
        x
    }
}

/// The value of `u64` nearest to a nonnegative `x`.
pub open spec fn cap_u64(x: int) -> int {
    if x > u64::MAX {
        u64::MAX as int
    } else {
        x
    }
}

pub open spec fn abs(x: int) -> int {
    if x < 0 {
        -x
    } else {
        x
    }
}

pub open spec fn min(a: int, b: int) -> int {
    if a <= b {
        a
    } else {
        b
    }
}

pub open spec fn max(a: int, b: int) -> int {
    if a >= b {
        a
    } else {
        b
    }
}

/// Narrow to 64 bits, dropping the high ones.
pub fn narrow_i64(x: i128) -> (r: i64)
    ensures
        r == wrap_i64(x as int),
{
    let r: i64 = x as i64;
    assert(r == (x + 0x8000_0000_0000_0000) % 0x1_0000_0000_0000_0000 - 0x8000_0000_0000_0000)
        by (bit_vector)
        requires
            r == x as i64,
    ;
    r
}

/// Clamp to the range of `i64`.
pub fn clamp_to_i64(v: i128) -> (r: i64)
    ensures
        r == clamp_i64(v as int),
{
    if v > i64::MAX as i128 {
        i64::MAX
    } else if v < i64::MIN as i128 {
        i64::MIN
    } else {
        v as i64
    }
}

/// The value of `i128` nearest to `x`.
pub open spec fn clamp_i128(x: int) -> int {
    if x > i128::MAX {
        i128::MAX as int
    } else if x < i128::MIN {
        i128::MIN as int
    } else {
        x
    }
}

/// A sum, held at the ends of the range.
pub fn held_sum(x: i128, y: i128) -> (sum: i128)
    ensures
        sum == clamp_i128(x + y),
{
    match x.checked_add(y) {
        Some(sum) => sum,
        None => if y > 0 {
            i128::MAX
        } else {
            i128::MIN
        },
    }
}

/// A difference, held at the ends of the range.
pub fn held_difference(x: i128, y: i128) -> (difference: i128)
    ensures
        difference == clamp_i128(x - y),
{
    match x.checked_sub(y) {
        Some(difference) => difference,
        None => if y > 0 {
            i128::MIN
        } else {
            i128::MAX
        },
    }
}

/// Add two `i64`, holding at the end of the range on overflow.
pub fn saturating_add_i64(a: i64, b: i64) -> (r: i64)
    ensures
        r == clamp_i64(a + b),
{
    clamp_to_i64(a as i128 + b as i128)
}

/// Multiply two `u64`, holding at the largest value on overflow.
pub fn saturating_mul_u64(a: u64, b: u64) -> (r: u64)
    ensures
        r == cap_u64(a * b),
{
    assert(a as int * b as int <= u64::MAX as int * u64::MAX as int) by (nonlinear_arith)
        requires
            0 <= a <= u64::MAX,
            0 <= b <= u64::MAX,
    ;
    assert(a as int * b as int >= 0) by (nonlinear_arith)
        requires
            a >= 0,
            b >= 0,
    ;
    let p: u128 = (a as u128) * (b as u128);
    if p > u64::MAX as u128 {
        u64::MAX
    } else {
        p as u64
    }
}

/// The magnitude of an `i64`.
pub fn magnitude(x: i64) -> (r: u64)
    ensures
        r == abs(x as int),
{
    if x >= 0 {
        x as u64
    } else {
        (-(x as i128)) as u64
    }
}

/// A quotient times its divisor comes as close to the number as it can from the side of
/// zero.
pub proof fn law_quotients_drop_the_rest(a: int, b: int)
    requires
        b > 0,
    ensures
        a >= 0 ==> b * trunc_div(a, b) <= a < b * trunc_div(a, b) + b,
        a <= 0 ==> b * trunc_div(a, b) - b < a <= b * trunc_div(a, b),
{
    let c = if a >= 0 {
        a
    } else {
        -a
    };
    let q = c / b;
    assert(b * q <= c < b * q + b) by (nonlinear_arith)
        requires
            b > 0,
            q == c / b,
    ;
    if a < 0 {
        assert(b * (-q) == -(b * q)) by (nonlinear_arith);
    }
}

/// A number that does not fit wraps by a multiple of what fits; one that fits stays.
pub proof fn law_wrapping_keeps_what_fits(x: int, k: int)
    requires
        i64::MIN <= x <= i64::MAX,
    ensures
        wrap_i64(x + k * 0x1_0000_0000_0000_0000) == x,
{
    let m = 0x1_0000_0000_0000_0000int;
    let y = x + 0x8000_0000_0000_0000;
    assert((y + k * m) % m == y) by (nonlinear_arith)
        requires
            m == 0x1_0000_0000_0000_0000int,
            0 <= y < m,
    ;
}

/// A number that does not fit becomes the one next to it that does; one that fits stays.
pub proof fn law_clamping_is_to_the_nearest(x: int)
    ensures
        -0x8000_0000_0000_0000 <= x <= 0x7fff_ffff_ffff_ffff ==> clamp_i64(x) == x,
        x > 0x7fff_ffff_ffff_ffff ==> clamp_i64(x) == 0x7fff_ffff_ffff_ffff,
        x < -0x8000_0000_0000_0000 ==> clamp_i64(x) == -0x8000_0000_0000_0000,
        x <= 0xffff_ffff_ffff_ffff ==> cap_u64(x) == x,
        x > 0xffff_ffff_ffff_ffff ==> cap_u64(x) == 0xffff_ffff_ffff_ffff,
        i128::MIN <= x <= i128::MAX ==> clamp_i128(x) == x,
        x > i128::MAX ==> clamp_i128(x) == i128::MAX,
        x < i128::MIN ==> clamp_i128(x) == i128::MIN,
{
}

/// The smaller and the larger of two numbers, and the size of one.
pub proof fn law_extremes_bound_both(a: int, b: int)
    ensures
        min(a, b) <= a && min(a, b) <= b && (min(a, b) == a || min(a, b) == b),
        max(a, b) >= a && max(a, b) >= b && (max(a, b) == a || max(a, b) == b),
        abs(a) >= 0 && (abs(a) == a || abs(a) == -a),
{
}

} // verus!
