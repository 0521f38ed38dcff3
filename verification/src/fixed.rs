//! Fixed-point scalar arithmetic.
//!
//! Every scalar of the renderer is a signed 64-bit integer holding a real
//! value scaled by [`ONE`]: the raw value `v` stands for `v / ONE`.
//! Addition, subtraction, multiplication, division and square root are
//! total: results are truncated toward zero and saturated into the
//! symmetric range `[-FX_MAX, FX_MAX]`, so negation never overflows and
//! `fx_neg_s(fx_neg_s(v)) == v` on every representable value.

use vstd::prelude::*;
use vstd::arithmetic::div_mod::{lemma_div_is_ordered, lemma_div_multiples_vanish, lemma_div_pos_is_pos};
use vstd::arithmetic::mul::lemma_mul_inequality;

verus! {

/// Scale of the fixed-point representation.
pub const ONE: i64 = 1_000_000;
/// One half, scaled.
pub const HALF: i64 = 500_000;
/// Two, scaled.
pub const TWO: i64 = 2_000_000;
/// Four, scaled.
pub const FOUR: i64 = 4_000_000;
/// Largest raw magnitude; the representable range is symmetric around zero.
pub const FX_MAX: i64 = 0x7fff_ffff_ffff_ffff;

pub open spec fn abs_s(a: int) -> int {
    if a < 0 {
        -a
    } else {
        a
    }
}

/// Saturation into the symmetric representable range.
pub open spec fn sat_s(v: int) -> int {
    if v > FX_MAX as int {
        FX_MAX as int
    } else if v < -(FX_MAX as int) {
        -(FX_MAX as int)
    } else {
        v
    }
}

/// Division truncated toward zero, the rounding of Rust's integer `/`.
pub open spec fn tdiv_s(a: int, b: int) -> int {
    if b == 0 {
        0
    } else if (a < 0) == (b < 0) {
        abs_s(a) / abs_s(b)
    } else {
        -(abs_s(a) / abs_s(b))
    }
}

pub open spec fn fx_add_s(a: int, b: int) -> int {
    sat_s(a + b)
}

pub open spec fn fx_sub_s(a: int, b: int) -> int {
    sat_s(a - b)
}

pub open spec fn fx_neg_s(a: int) -> int {
    sat_s(-a)
}

pub open spec fn fx_mul_s(a: int, b: int) -> int {
    sat_s(tdiv_s(a * b, ONE as int))
}

pub open spec fn fx_div_s(a: int, b: int) -> int {
    sat_s(tdiv_s(a * (ONE as int), b))
}

/// Integer square root, `floor(sqrt(n))` for `n >= 0`.
pub open spec fn isqrt_s(n: int) -> int
    decreases n,
{
    if n < 1 {
        0
    } else {
        let r = 2 * isqrt_s(n / 4);
        if (r + 1) * (r + 1) <= n {
            r + 1
        } else {
            r
        }
    }
}

/// Square root of a scaled value: `fx_sqrt_s(a) / ONE ~ sqrt(a / ONE)`.
pub open spec fn fx_sqrt_s(a: int) -> int {
    if a <= 0 {
        0
    } else {
        isqrt_s(a * (ONE as int))
    }
}

pub proof fn lemma_isqrt_bracket(n: int)
    requires
        n >= 0,
    ensures
        0 <= isqrt_s(n),
        isqrt_s(n) * isqrt_s(n) <= n,
        n < (isqrt_s(n) + 1) * (isqrt_s(n) + 1),
    decreases n,
{
    if n < 1 {
    } else {
        lemma_isqrt_bracket(n / 4);
        let r0 = isqrt_s(n / 4);
        let r = 2 * r0;
        assert(4 * (n / 4) <= n && n < 4 * (n / 4) + 4) by (nonlinear_arith);
        assert((2 * r0) * (2 * r0) == 4 * (r0 * r0)) by (nonlinear_arith);
        assert((2 * r0 + 2) * (2 * r0 + 2) == 4 * ((r0 + 1) * (r0 + 1))) by (nonlinear_arith);
        assert(r * r <= n);
        assert(n < (r + 2) * (r + 2));
    }
}

pub proof fn lemma_isqrt_unique(n: int, r: int)
    requires
        n >= 0,
        r >= 0,
        r * r <= n,
        n < (r + 1) * (r + 1),
    ensures
        r == isqrt_s(n),
{
    let s = isqrt_s(n);
    lemma_isqrt_bracket(n);
    if r < s {
        assert((r + 1) * (r + 1) <= s * s) by (nonlinear_arith)
            requires
                0 <= r,
                r < s,
        ;
    }
    if s < r {
        assert((s + 1) * (s + 1) <= r * r) by (nonlinear_arith)
            requires
                0 <= s,
                s < r,
        ;
    }
}

pub proof fn lemma_sat_mono(a: int, b: int)
    requires
        a <= b,
    ensures
        sat_s(a) <= sat_s(b),
{
}

pub proof fn lemma_tdiv_mono(a1: int, a2: int, b: int)
    requires
        a1 <= a2,
        b > 0,
    ensures
        tdiv_s(a1, b) <= tdiv_s(a2, b),
{
    if a1 >= 0 {
        lemma_div_is_ordered(a1, a2, b);
    } else if a2 < 0 {
        lemma_div_is_ordered(-a2, -a1, b);
    } else {
        lemma_div_pos_is_pos(a2, b);
        lemma_div_pos_is_pos(-a1, b);
    }
}

/// Scaled division by a positive value keeps the order of numerators.
pub proof fn lemma_fx_div_mono(a1: int, a2: int, b: int)
    requires
        a1 <= a2,
        b > 0,
    ensures
        fx_div_s(a1, b) <= fx_div_s(a2, b),
{
    lemma_mul_inequality(a1, a2, ONE as int);
    lemma_tdiv_mono(a1 * (ONE as int), a2 * (ONE as int), b);
    lemma_sat_mono(tdiv_s(a1 * (ONE as int), b), tdiv_s(a2 * (ONE as int), b));
}

proof fn lemma_abs_mul(a: int, b: int)
    ensures
        abs_s(a * b) == abs_s(a) * abs_s(b),
        ((a < 0) == (b < 0)) ==> a * b >= 0,
        ((a < 0) != (b < 0)) ==> a * b <= 0,
{
    assert(abs_s(a * b) == abs_s(a) * abs_s(b) && (((a < 0) == (b < 0)) ==> a * b >= 0) && (((a
        < 0) != (b < 0)) ==> a * b <= 0)) by (nonlinear_arith);
}

fn abs_u128(a: i64) -> (r: u128)
    ensures
        r as int == abs_s(a as int),
{
    if a >= 0 {
        a as u128
    } else {
        (-(a as i128)) as u128
    }
}

fn clamp_signed(neg: bool, m: u128) -> (r: i64)
    ensures
        r as int == sat_s(
            if neg {
                -(m as int)
            } else {
                m as int
            },
        ),
{
    if m > FX_MAX as u128 {
        if neg {
            -FX_MAX
        } else {
            FX_MAX
        }
    } else {
        if neg {
            -(m as i64)
        } else {
            m as i64
        }
    }
}

pub fn fx_add(a: i64, b: i64) -> (r: i64)
    ensures
        r as int == fx_add_s(a as int, b as int),
{
    let s: i128 = a as i128 + b as i128;
    if s > FX_MAX as i128 {
        FX_MAX
    } else if s < -(FX_MAX as i128) {
        -FX_MAX
    } else {
        s as i64
    }
}

pub fn fx_sub(a: i64, b: i64) -> (r: i64)
    ensures
        r as int == fx_sub_s(a as int, b as int),
{
    let s: i128 = a as i128 - b as i128;
    if s > FX_MAX as i128 {
        FX_MAX
    } else if s < -(FX_MAX as i128) {
        -FX_MAX
    } else {
        s as i64
    }
}

pub fn fx_neg(a: i64) -> (r: i64)
    ensures
        r as int == fx_neg_s(a as int),
{
    if a == i64::MIN {
        FX_MAX
    } else {
        -a
    }
}

pub fn fx_mul(a: i64, b: i64) -> (r: i64)
    ensures
        r as int == fx_mul_s(a as int, b as int),
{
    let neg = (a < 0) != (b < 0);
    let ua = abs_u128(a);
    let ub = abs_u128(b);
    proof {
        lemma_abs_mul(a as int, b as int);
        assert(ua * ub <= 0x8000_0000_0000_0000u128 * 0x8000_0000_0000_0000u128)
            by (nonlinear_arith)
            requires
                ua <= 0x8000_0000_0000_0000u128,
                ub <= 0x8000_0000_0000_0000u128,
        ;
    }
    let m: u128 = (ua * ub) / (ONE as u128);
    clamp_signed(neg, m)
}

pub fn fx_div(a: i64, b: i64) -> (r: i64)
    requires
        b != 0,
    ensures
        r as int == fx_div_s(a as int, b as int),
{
    let neg = (a < 0) != (b < 0);
    let ua = abs_u128(a);
    let ub = abs_u128(b);
    proof {
        lemma_abs_mul(a as int, ONE as int);
        assert(ua * (ONE as u128) <= 0x8000_0000_0000_0000u128 * 1_000_000u128)
            by (nonlinear_arith)
            requires
                ua <= 0x8000_0000_0000_0000u128,
        ;
    }
    let m: u128 = (ua * (ONE as u128)) / ub;
    clamp_signed(neg, m)
}

fn isqrt_u128(n: u128) -> (r: u128)
    requires
        n < 0x1_0000_0000_0000_0000_0000_0u128,
    ensures
        r as int == isqrt_s(n as int),
        r * r <= n,
{
    let mut lo: u128 = 0;
    let mut hi: u128 = 0x400_0000_0000u128;
    proof {
        assert(0x400_0000_0000u128 * 0x400_0000_0000u128 == 0x1_0000_0000_0000_0000_0000_0u128);
    }
    while hi - lo > 1
        invariant
            lo < hi,
            hi <= 0x400_0000_0000u128,
            lo * lo <= n,
            n < hi * hi,
        decreases hi - lo,
    {
        let mid: u128 = lo + (hi - lo) / 2;
        proof {
            assert(mid * mid < 0x1_0000_0000_0000_0000_0000_0u128) by (nonlinear_arith)
                requires
                    mid < 0x400_0000_0000u128,
            ;
        }
        if mid * mid <= n {
            lo = mid;
        } else {
            hi = mid;
        }
    }
    proof {
        assert(hi == lo + 1);
        lemma_isqrt_unique(n as int, lo as int);
    }
    lo
}

pub fn fx_sqrt(a: i64) -> (r: i64)
    ensures
        r as int == fx_sqrt_s(a as int),
{
    if a <= 0 {
        0
    } else {
        let n: u128 = (a as u128) * (ONE as u128);
        proof {
            assert((a as u128) * 1_000_000u128 < 0x1_0000_0000_0000_0000_0000_0u128)
                by (nonlinear_arith)
                requires
                    a as u128 <= 0x7fff_ffff_ffff_ffffu128,
            ;
        }
        let r: u128 = isqrt_u128(n);
        proof {
            assert(r * r <= n ==> r < 0x400_0000_0000u128) by (nonlinear_arith)
                requires
                    n < 0x1_0000_0000_0000_0000_0000_0u128,
                    r * r <= n,
            ;
        }
        r as i64
    }
}

pub proof fn lemma_fx_sqrt_nonneg(a: int)
    ensures
        fx_sqrt_s(a) >= 0,
{
    if a > 0 {
        lemma_isqrt_bracket(a * (ONE as int));
        assert(a * (ONE as int) >= 0) by (nonlinear_arith)
            requires
                a > 0,
        ;
    }
}

/// Doubling a positive scaled value stays positive (and exact up to
/// saturation).
pub proof fn lemma_fx_mul_two_pos(a: int)
    requires
        a >= 1,
    ensures
        fx_mul_s(TWO as int, a) >= 2,
{
    lemma_mul_inequality(1, a, TWO as int);
    lemma_div_is_ordered(TWO as int, (TWO as int) * a, ONE as int);
    assert((TWO as int) * a == a * (TWO as int)) by (nonlinear_arith);
    assert(abs_s((TWO as int) * a) == (TWO as int) * a);
}

/// Negating the divisor negates a scaled quotient.
pub proof fn lemma_fx_div_neg(a: int, b: int)
    requires
        b != 0,
    ensures
        fx_div_s(a, -b) == fx_neg_s(fx_div_s(a, b)),
{
}

/// The scaled square does not depend on the sign of its argument.
pub proof fn lemma_fx_mul_self_neg(a: int)
    ensures
        fx_mul_s(-a, -a) == fx_mul_s(a, a),
{
    assert((-a) * (-a) == a * a) by (nonlinear_arith);
}

/// A quotient whose numerator is no larger in magnitude than its positive
/// divisor stays within one scaled unit.
pub proof fn lemma_fx_div_unit_bound(a: int, b: int)
    requires
        b > 0,
        abs_s(a) <= b,
    ensures
        abs_s(fx_div_s(a, b)) <= ONE as int,
{
    lemma_mul_inequality(abs_s(a), b, ONE as int);
    lemma_div_is_ordered(abs_s(a) * (ONE as int), b * (ONE as int), b);
    lemma_div_multiples_vanish(ONE as int, b);
    assert(b * (ONE as int) == (ONE as int) * b) by (nonlinear_arith);
    lemma_div_pos_is_pos(abs_s(a) * (ONE as int), b);
    assert(abs_s(a * (ONE as int)) == abs_s(a) * (ONE as int)) by (nonlinear_arith);
}

/// The scaled square of a value within one unit stays within `[0, ONE]`.
pub proof fn lemma_fx_square_unit(q: int)
    requires
        abs_s(q) <= ONE as int,
    ensures
        0 <= fx_mul_s(q, q) <= ONE as int,
{
    assert(0 <= q * q <= (ONE as int) * (ONE as int)) by (nonlinear_arith)
        requires
            abs_s(q) <= ONE as int,
    ;
    lemma_div_is_ordered(q * q, (ONE as int) * (ONE as int), ONE as int);
    lemma_div_pos_is_pos(q * q, ONE as int);
}

/// Multiplying by the scaled unit is the identity on representable
/// values.
pub proof fn lemma_fx_mul_one(x: int)
    requires
        abs_s(x) <= FX_MAX as int,
    ensures
        fx_mul_s(x, ONE as int) == x,
{
    lemma_div_multiples_vanish(abs_s(x), ONE as int);
    assert(abs_s(x) * (ONE as int) == (ONE as int) * abs_s(x)) by (nonlinear_arith);
    assert(abs_s(x * (ONE as int)) == abs_s(x) * (ONE as int)) by (nonlinear_arith);
}

} // verus!
