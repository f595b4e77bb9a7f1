//! Q32.32 fixed-point arithmetic on `i64`.
//!
//! A raw value `v: i64` stands for the real number `v / 2^32`. All
//! operations round toward negative infinity (Euclidean division by the
//! positive constant `SCALE`), and every executable operation is specified
//! exactly against its mathematical counterpart over `int`.

use vstd::prelude::*;

verus! {

/// One in Q32.32: a raw value is interpreted as `raw / SCALE`.
pub const SCALE: i64 = 0x1_0000_0000;

/// Does a mathematical integer fit in `i64`?
pub open spec fn fits64(v: int) -> bool {
    i64::MIN <= v <= i64::MAX
}

/// Clamp a mathematical integer into the `i64` range.
pub open spec fn sat64(v: int) -> int {
    if v > i64::MAX {
        i64::MAX as int
    } else if v < i64::MIN {
        i64::MIN as int
    } else {
        v
    }
}

/// Fixed-point product: floor(a * b / 2^32).
pub open spec fn fx_mul_s(a: int, b: int) -> int {
    (a * b) / (SCALE as int)
}

/// Fixed-point quotient: floor(a * 2^32 / b) for b > 0.
pub open spec fn fx_div_s(a: int, b: int) -> int {
    (a * (SCALE as int)) / b
}

/// Widening product of two `i64` values.
fn wide_mul(a: i64, b: i64) -> (r: i128)
    ensures
        r == a as int * b as int,
        -0x4000_0000_0000_0000_0000_0000_0000_0000 <= r <= 0x4000_0000_0000_0000_0000_0000_0000_0000,
{
    proof {
        assert(-0x4000_0000_0000_0000_0000_0000_0000_0000 <= (a as int) * (b as int)
            <= 0x4000_0000_0000_0000_0000_0000_0000_0000) by (nonlinear_arith)
            requires
                i64::MIN <= a <= i64::MAX,
                i64::MIN <= b <= i64::MAX,
        ;
    }
    (a as i128) * (b as i128)
}

/// Fixed-point multiplication into a wide result, which always fits:
/// the product of two `i64` values, scaled down, stays within `2^95`.
pub(crate) fn fx_mul_wide(a: i64, b: i64) -> (r: i128)
    ensures
        r == fx_mul_s(a as int, b as int),
        -0x8000_0000_0000_0000_0000_0000 <= r <= 0x8000_0000_0000_0000_0000_0000,
{
    let w = wide_mul(a, b);
    proof {
        vstd::arithmetic::div_mod::lemma_fundamental_div_mod(w as int, SCALE as int);
        vstd::arithmetic::div_mod::lemma_mod_bound(w as int, SCALE as int);
        let q = (w as int) / (SCALE as int);
        assert(-0x8000_0000_0000_0000_0000_0000 <= q <= 0x8000_0000_0000_0000_0000_0000)
            by (nonlinear_arith)
            requires
                w as int == (SCALE as int) * q + (w as int) % (SCALE as int),
                0 <= (w as int) % (SCALE as int) < SCALE as int,
                SCALE == 0x1_0000_0000i64,
                -0x4000_0000_0000_0000_0000_0000_0000_0000 <= w as int
                    <= 0x4000_0000_0000_0000_0000_0000_0000_0000,
        ;
    }
    match w.checked_div_euclid(SCALE as i128) {
        Some(q) => q,
        None => 0,
    }
}

/// Checked fixed-point addition.
pub fn fx_add(a: i64, b: i64) -> (r: Option<i64>)
    ensures
        match r {
            Some(v) => v == a + b,
            None => !fits64(a + b),
        },
{
    a.checked_add(b)
}

/// Checked fixed-point subtraction.
pub fn fx_sub(a: i64, b: i64) -> (r: Option<i64>)
    ensures
        match r {
            Some(v) => v == a - b,
            None => !fits64(a - b),
        },
{
    a.checked_sub(b)
}

/// Checked negation.
pub fn fx_neg(a: i64) -> (r: Option<i64>)
    ensures
        match r {
            Some(v) => v == -(a as int),
            None => !fits64(-(a as int)),
        },
{
    0i64.checked_sub(a)
}

/// Checked fixed-point multiplication: floor(a * b / 2^32) if it fits.
pub fn fx_mul(a: i64, b: i64) -> (r: Option<i64>)
    ensures
        match r {
            Some(v) => v == fx_mul_s(a as int, b as int),
            None => !fits64(fx_mul_s(a as int, b as int)),
        },
{
    let w = wide_mul(a, b);
    match w.checked_div_euclid(SCALE as i128) {
        Some(q) => {
            if i64::MIN as i128 <= q && q <= i64::MAX as i128 {
                Some(q as i64)
            } else {
                None
            }
        },
        None => None,
    }
}

/// Checked fixed-point division: floor(a * 2^32 / b) if b != 0 and the
/// quotient fits.
pub fn fx_div(a: i64, b: i64) -> (r: Option<i64>)
    ensures
        match r {
            Some(v) => b != 0 && v == fx_div_s(a as int, b as int),
            None => b == 0 || !fits64(fx_div_s(a as int, b as int)),
        },
{
    if b == 0 {
        return None;
    }
    let w = wide_mul(a, SCALE);
    match w.checked_div_euclid(b as i128) {
        Some(q) => {
            if i64::MIN as i128 <= q && q <= i64::MAX as i128 {
                Some(q as i64)
            } else {
                None
            }
        },
        None => None,
    }
}

/// Saturating fixed-point division for a nonnegative numerator and a
/// positive denominator: the quotient, clamped at `i64::MAX`.
pub fn fx_div_sat(a: i64, b: i64) -> (r: i64)
    requires
        a >= 0,
        b > 0,
    ensures
        r == sat64(fx_div_s(a as int, b as int)),
        r >= 0,
{
    let w = wide_mul(a, SCALE);
    proof {
        vstd::arithmetic::div_mod::lemma_div_pos_is_pos(w as int, b as int);
        vstd::arithmetic::div_mod::lemma_div_nonincreasing(w as int, b as int);
    }
    match w.checked_div_euclid(b as i128) {
        Some(q) => {
            if q > i64::MAX as i128 {
                i64::MAX
            } else {
                q as i64
            }
        },
        None => 0,
    }
}

/// Saturating fixed-point multiplication of nonnegative values: the
/// product, clamped at `i64::MAX`.
pub fn fx_mul_sat(a: i64, b: i64) -> (r: i64)
    requires
        a >= 0,
        b >= 0,
    ensures
        r == sat64(fx_mul_s(a as int, b as int)),
        r >= 0,
{
    let w = wide_mul(a, b);
    proof {
        vstd::arithmetic::mul::lemma_mul_nonnegative(a as int, b as int);
        vstd::arithmetic::div_mod::lemma_div_pos_is_pos(w as int, SCALE as int);
        vstd::arithmetic::div_mod::lemma_div_nonincreasing(w as int, SCALE as int);
    }
    match w.checked_div_euclid(SCALE as i128) {
        Some(q) => {
            if q > i64::MAX as i128 {
                i64::MAX
            } else {
                q as i64
            }
        },
        None => 0,
    }
}

/// `r` is the integer square root of `n`: the largest integer whose
/// square does not exceed `n`.
pub open spec fn is_isqrt(n: int, r: int) -> bool {
    &&& 0 <= r
    &&& r * r <= n
    &&& (r + 1) * (r + 1) > n
}

/// The integer square root of a nonnegative integer.
pub open spec fn isqrt_s(n: int) -> int {
    choose|r: int| is_isqrt(n, r)
}

/// The integer square root is unique.
pub proof fn lemma_isqrt_unique(n: int, r1: int, r2: int)
    by (nonlinear_arith)
    requires
        is_isqrt(n, r1),
        is_isqrt(n, r2),
    ensures
        r1 == r2,
{
}

/// Integer square root of a `u128`, by bisection.
pub fn isqrt_u128(n: u128) -> (r: u128)
    ensures
        is_isqrt(n as int, r as int),
        r == isqrt_s(n as int),
{
    let mut lo: u128 = 0;
    let mut hi: u128 = 0x1_0000_0000_0000_0000;
    proof {
        assert((hi as int) * (hi as int) > n as int) by (nonlinear_arith)
            requires
                hi == 0x1_0000_0000_0000_0000u128,
                n <= u128::MAX,
        ;
    }
    while lo + 1 < hi
        invariant
            0 <= lo < hi <= 0x1_0000_0000_0000_0000u128,
            (lo as int) * (lo as int) <= n as int,
            (hi as int) * (hi as int) > n as int,
        decreases hi - lo,
    {
        let mid = lo + (hi - lo) / 2;
        proof {
            assert((mid as int) * (mid as int) <= u128::MAX) by (nonlinear_arith)
                requires
                    0 <= mid < 0x1_0000_0000_0000_0000u128,
            ;
        }
        if mid * mid <= n {
            lo = mid;
        } else {
            hi = mid;
        }
    }
    proof {
        assert(is_isqrt(n as int, lo as int));
        lemma_isqrt_unique(n as int, lo as int, isqrt_s(n as int));
    }
    lo
}

/// Fixed-point square root: floor of the square root of `x / 2^32`,
/// in Q32.32.
pub fn fx_sqrt(x: i64) -> (r: i64)
    requires
        x >= 0,
    ensures
        r >= 0,
        r == isqrt_s(x as int * SCALE as int),
        is_isqrt(x as int * SCALE as int, r as int),
{
    proof {
        assert(0 <= (x as int) * 0x1_0000_0000int <= 0x8000_0000_0000_0000_0000_0000int)
            by (nonlinear_arith)
            requires
                0 <= x <= 0x7fff_ffff_ffff_ffffint,
        ;
    }
    let w = (x as u128) * (SCALE as u128);
    let r = isqrt_u128(w);
    proof {
        assert(r < 0x1_0000_0000_0000u128) by (nonlinear_arith)
            requires
                (r as int) * (r as int) <= w as int,
                w as int == (x as int) * 0x1_0000_0000int,
                0 <= x <= 0x7fff_ffff_ffff_ffffint,
        ;
    }
    r as i64
}

/// Fixed-point fifth power, with floor rounding after each of the four
/// multiplications, exactly as the executable chain computes it.
pub open spec fn fx_pow5_s(y: int) -> int {
    fx_mul_s(fx_mul_s(fx_mul_s(fx_mul_s(y, y), y), y), y)
}

/// A fixed-point square is nonnegative.
pub proof fn lemma_fx_sq_nonneg(a: int)
    ensures
        fx_mul_s(a, a) >= 0,
{
    assert(a * a >= 0) by (nonlinear_arith);
    vstd::arithmetic::div_mod::lemma_div_pos_is_pos(a * a, SCALE as int);
}

/// A fixed-point product of nonnegative factors is nonnegative.
pub proof fn lemma_fx_mul_s_nonneg(a: int, b: int)
    requires
        a >= 0,
        b >= 0,
    ensures
        fx_mul_s(a, b) >= 0,
{
    vstd::arithmetic::mul::lemma_mul_nonnegative(a, b);
    vstd::arithmetic::div_mod::lemma_div_pos_is_pos(a * b, SCALE as int);
}

/// Fixed-point products of nonnegative factors are monotone in both
/// factors.
pub proof fn lemma_fx_mul_s_mono(a1: int, b1: int, a2: int, b2: int)
    requires
        0 <= a1 <= a2,
        0 <= b1 <= b2,
    ensures
        0 <= fx_mul_s(a1, b1) <= fx_mul_s(a2, b2),
{
    assert(0 <= a1 * b1 <= a2 * b2) by (nonlinear_arith)
        requires
            0 <= a1 <= a2,
            0 <= b1 <= b2,
    ;
    vstd::arithmetic::div_mod::lemma_div_pos_is_pos(a1 * b1, SCALE as int);
    vstd::arithmetic::div_mod::lemma_div_is_ordered(a1 * b1, a2 * b2, SCALE as int);
}

/// The fifth-power chain is monotone over nonnegative arguments.
pub proof fn lemma_fx_pow5_s_mono(a: int, b: int)
    requires
        0 <= a <= b,
    ensures
        0 <= fx_pow5_s(a) <= fx_pow5_s(b),
{
    lemma_fx_mul_s_mono(a, a, b, b);
    lemma_fx_mul_s_mono(fx_mul_s(a, a), a, fx_mul_s(b, b), b);
    lemma_fx_mul_s_mono(fx_mul_s(fx_mul_s(a, a), a), a, fx_mul_s(fx_mul_s(b, b), b), b);
    lemma_fx_mul_s_mono(
        fx_mul_s(fx_mul_s(fx_mul_s(a, a), a), a),
        a,
        fx_mul_s(fx_mul_s(fx_mul_s(b, b), b), b),
        b,
    );
}

/// `r` is the fixed-point fifth root of `x`: the largest raw value whose
/// fifth-power chain stays at or below `x`.
pub open spec fn is_root5(x: int, r: int) -> bool {
    &&& 0 <= r
    &&& fx_pow5_s(r) <= x
    &&& fx_pow5_s(r + 1) > x
}

/// The fixed-point fifth root of a nonnegative value.
pub open spec fn fx_root5_s(x: int) -> int {
    choose|r: int| is_root5(x, r)
}

/// The fixed-point fifth root is unique.
pub proof fn lemma_root5_unique(x: int, r1: int, r2: int)
    requires
        is_root5(x, r1),
        is_root5(x, r2),
    ensures
        r1 == r2,
{
    if r1 < r2 {
        lemma_fx_pow5_s_mono(r1 + 1, r2);
        assert(false);
    }
    if r2 < r1 {
        lemma_fx_pow5_s_mono(r2 + 1, r1);
        assert(false);
    }
}

/// The fifth-power chain at `2^39` evaluates to `2^67`, which bounds it
/// above every representable radicand.
pub proof fn lemma_pow5_high()
    ensures
        fx_pow5_s(0x80_0000_0000int) == 0x8_0000_0000_0000_0000int,
{
    vstd::arithmetic::div_mod::lemma_fundamental_div_mod_converse(
        0x4000_0000_0000_0000_0000int,
        0x1_0000_0000int,
        0x4000_0000_0000int,
        0int,
    );
    vstd::arithmetic::div_mod::lemma_fundamental_div_mod_converse(
        0x20_0000_0000_0000_0000_0000int,
        0x1_0000_0000int,
        0x20_0000_0000_0000int,
        0int,
    );
    vstd::arithmetic::div_mod::lemma_fundamental_div_mod_converse(
        0x1000_0000_0000_0000_0000_0000int,
        0x1_0000_0000int,
        0x1000_0000_0000_0000int,
        0int,
    );
    vstd::arithmetic::div_mod::lemma_fundamental_div_mod_converse(
        0x8_0000_0000_0000_0000_0000_0000int,
        0x1_0000_0000int,
        0x8_0000_0000_0000_0000int,
        0int,
    );
}

/// Walk upward from a value below the root until the fifth-power chain
/// passes `x`, establishing that a fifth root exists.
proof fn lemma_root5_walk(x: int, y: int)
    requires
        0 <= y <= 0x80_0000_0000,
        fx_pow5_s(y) <= x,
        x < fx_pow5_s(0x80_0000_0000),
    ensures
        exists|r: int| is_root5(x, r),
    decreases 0x80_0000_0000 - y,
{
    if fx_pow5_s(y + 1) > x {
        assert(is_root5(x, y));
    } else {
        if y + 1 > 0x80_0000_0000 {
            assert(false);
        } else {
            if !(y + 1 < 0x80_0000_0000 || fx_pow5_s(y + 1) > x) {
                lemma_fx_pow5_s_mono(0x80_0000_0000, y + 1);
                assert(false);
            }
            lemma_root5_walk(x, y + 1);
        }
    }
}

/// Every representable nonnegative value has a fifth root, so the
/// chosen `fx_root5_s` satisfies its characterisation.
pub proof fn lemma_root5_exists(x: int)
    requires
        0 <= x <= i64::MAX,
    ensures
        is_root5(x, fx_root5_s(x)),
{
    lemma_pow5_high();
    vstd::arithmetic::div_mod::lemma_div_of0(SCALE as int);
    assert(fx_pow5_s(0) == 0);
    lemma_root5_walk(x, 0);
    let r = choose|r: int| is_root5(x, r);
    assert(is_root5(x, r));
}

/// The fifth root is monotone in its radicand.
pub proof fn lemma_root5_s_mono(x1: int, x2: int)
    requires
        0 <= x1 <= x2 <= i64::MAX,
    ensures
        fx_root5_s(x1) <= fx_root5_s(x2),
{
    lemma_root5_exists(x1);
    lemma_root5_exists(x2);
    let r1 = fx_root5_s(x1);
    let r2 = fx_root5_s(x2);
    if r1 > r2 {
        lemma_fx_pow5_s_mono(r2 + 1, r1);
        assert(false);
    }
}

/// The fifth-power chain in wide arithmetic, for arguments up to 2^39.
fn fx_pow5_wide(y: i64) -> (r: i128)
    requires
        0 <= y <= 0x80_0000_0000i64,
    ensures
        r == fx_pow5_s(y as int),
        r >= 0,
{
    let s128 = SCALE as i128;
    proof {
        assert(0 <= (y as int) * (y as int) <= 0x4000_0000_0000_0000_0000int) by (nonlinear_arith)
            requires
                0 <= y <= 0x80_0000_0000i64,
        ;
    }
    let w1 = (y as i128) * (y as i128);
    proof {
        vstd::arithmetic::div_mod::lemma_div_pos_is_pos(w1 as int, SCALE as int);
        vstd::arithmetic::div_mod::lemma_div_is_ordered(
            w1 as int,
            0x4000_0000_0000_0000_0000int,
            SCALE as int,
        );
        assert(0x4000_0000_0000_0000_0000int / 0x1_0000_0000int == 0x4000_0000_0000int) by {
            vstd::arithmetic::div_mod::lemma_fundamental_div_mod_converse(
                0x4000_0000_0000_0000_0000int,
                0x1_0000_0000int,
                0x4000_0000_0000int,
                0int,
            );
        }
    }
    let p1 = match w1.checked_div_euclid(s128) {
        Some(q) => q,
        None => 0,
    };
    proof {
        assert(0 <= p1 <= 0x4000_0000_0000int);
        assert(0 <= p1 * (y as int) <= 0x20_0000_0000_0000_0000_0000int) by (nonlinear_arith)
            requires
                0 <= p1 <= 0x4000_0000_0000int,
                0 <= y <= 0x80_0000_0000i64,
        ;
    }
    let w2 = p1 * (y as i128);
    proof {
        vstd::arithmetic::div_mod::lemma_div_pos_is_pos(w2 as int, SCALE as int);
        vstd::arithmetic::div_mod::lemma_div_is_ordered(
            w2 as int,
            0x20_0000_0000_0000_0000_0000int,
            SCALE as int,
        );
        assert(0x20_0000_0000_0000_0000_0000int / 0x1_0000_0000int == 0x20_0000_0000_0000int) by {
            vstd::arithmetic::div_mod::lemma_fundamental_div_mod_converse(
                0x20_0000_0000_0000_0000_0000int,
                0x1_0000_0000int,
                0x20_0000_0000_0000int,
                0int,
            );
        }
    }
    let p2 = match w2.checked_div_euclid(s128) {
        Some(q) => q,
        None => 0,
    };
    proof {
        assert(0 <= p2 <= 0x20_0000_0000_0000int);
        assert(0 <= p2 * (y as int) <= 0x1000_0000_0000_0000_0000_0000int) by (nonlinear_arith)
            requires
                0 <= p2 <= 0x20_0000_0000_0000int,
                0 <= y <= 0x80_0000_0000i64,
        ;
    }
    let w3 = p2 * (y as i128);
    proof {
        vstd::arithmetic::div_mod::lemma_div_pos_is_pos(w3 as int, SCALE as int);
        vstd::arithmetic::div_mod::lemma_div_is_ordered(
            w3 as int,
            0x1000_0000_0000_0000_0000_0000int,
            SCALE as int,
        );
        assert(0x1000_0000_0000_0000_0000_0000int / 0x1_0000_0000int
            == 0x1000_0000_0000_0000int) by {
            vstd::arithmetic::div_mod::lemma_fundamental_div_mod_converse(
                0x1000_0000_0000_0000_0000_0000int,
                0x1_0000_0000int,
                0x1000_0000_0000_0000int,
                0int,
            );
        }
    }
    let p3 = match w3.checked_div_euclid(s128) {
        Some(q) => q,
        None => 0,
    };
    proof {
        assert(0 <= p3 <= 0x1000_0000_0000_0000int);
        assert(0 <= p3 * (y as int) <= 0x8_0000_0000_0000_0000_0000_0000int) by (nonlinear_arith)
            requires
                0 <= p3 <= 0x1000_0000_0000_0000int,
                0 <= y <= 0x80_0000_0000i64,
        ;
    }
    let w4 = p3 * (y as i128);
    proof {
        vstd::arithmetic::div_mod::lemma_div_pos_is_pos(w4 as int, SCALE as int);
        vstd::arithmetic::div_mod::lemma_div_is_ordered(
            w4 as int,
            0x8_0000_0000_0000_0000_0000_0000int,
            SCALE as int,
        );
        assert(0x8_0000_0000_0000_0000_0000_0000int / 0x1_0000_0000int
            == 0x8_0000_0000_0000_0000int) by {
            vstd::arithmetic::div_mod::lemma_fundamental_div_mod_converse(
                0x8_0000_0000_0000_0000_0000_0000int,
                0x1_0000_0000int,
                0x8_0000_0000_0000_0000int,
                0int,
            );
        }
    }
    match w4.checked_div_euclid(s128) {
        Some(q) => q,
        None => 0,
    }
}

/// Fixed-point fifth root by bisection: the largest raw value whose
/// floored fifth-power chain stays at or below `x`.
pub fn fx_root5(x: i64) -> (r: i64)
    requires
        x >= 0,
    ensures
        r >= 0,
        r == fx_root5_s(x as int),
        is_root5(x as int, r as int),
{
    let mut lo: i64 = 0;
    let mut hi: i64 = 0x80_0000_0000;
    proof {
        vstd::arithmetic::div_mod::lemma_div_of0(SCALE as int);
        assert(fx_pow5_s(0) == 0);
        lemma_pow5_high();
    }
    while lo + 1 < hi
        invariant
            0 <= lo < hi <= 0x80_0000_0000i64,
            x >= 0,
            fx_pow5_s(lo as int) <= x as int,
            fx_pow5_s(hi as int) > x as int,
        decreases hi - lo,
    {
        let mid = lo + (hi - lo) / 2;
        let p = fx_pow5_wide(mid);
        if p <= x as i128 {
            lo = mid;
        } else {
            hi = mid;
        }
    }
    proof {
        assert(is_root5(x as int, lo as int));
        lemma_root5_unique(x as int, lo as int, fx_root5_s(x as int));
    }
    lo
}

} // verus!
