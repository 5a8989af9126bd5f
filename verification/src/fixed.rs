//! Fixed-point scalar arithmetic.
//!
//! A scalar is an `i64` holding the real value times [`SCALE`] (2^16).
//! Products and quotients are computed in 128-bit intermediates and rounded
//! toward zero; the specification functions below say exactly which integer
//! each operation returns.

use vstd::prelude::*;

verus! {

/// Number of raw units per 1.0; all scalars are multiples of 1/SCALE.
pub const SCALE: i64 = 65536;

/// `n` is representable as an `i64`.
pub open spec fn in_i64(n: int) -> bool {
    i64::MIN <= n <= i64::MAX
}

/// Absolute value.
pub open spec fn abs1(n: int) -> int {
    if n >= 0 { n } else { -n }
}

/// Division rounding toward zero, as the hardware performs it.
/// (The `/` of specifications is Euclidean division, which differs on
/// negative dividends.)
pub open spec fn tdiv(n: int, d: int) -> int {
    if (n >= 0) == (d >= 0) {
        abs1(n) / abs1(d)
    } else {
        -(abs1(n) / abs1(d))
    }
}

/// The product of `a` and `b`, scaled back down: the fixed-point product.
pub open spec fn fmul_spec(a: int, b: int) -> int {
    tdiv(a * b, SCALE as int)
}

/// `a` scaled up and divided by `b`: the fixed-point quotient.
pub open spec fn fdiv_spec(a: int, b: int) -> int {
    tdiv(a * SCALE, b)
}

/// Rounding toward zero negates along with the dividend.
pub proof fn lemma_tdiv_neg(n: int, d: int)
    requires
        d > 0,
    ensures
        tdiv(-n, d) == -tdiv(n, d),
{
}

/// Scaling up by a positive factor and dividing by it round-trips exactly.
pub proof fn lemma_tdiv_mul_cancel(x: int, d: int)
    requires
        d > 0,
    ensures
        tdiv(x * d, d) == x,
{
    if x >= 0 {
        vstd::arithmetic::div_mod::lemma_div_by_multiple(x, d);
        assert(x * d >= 0 && abs1(x * d) == x * d) by (nonlinear_arith)
            requires x >= 0, d > 0,
        ;
    } else {
        vstd::arithmetic::div_mod::lemma_div_by_multiple(-x, d);
        assert(x * d < 0 && abs1(x * d) == (-x) * d) by (nonlinear_arith)
            requires x < 0, d > 0,
        ;
    }
}

/// Division toward zero on 128-bit integers.
pub fn div_trunc(n: i128, d: i128) -> (r: i128)
    requires
        d != 0,
        n > i128::MIN,
        d > i128::MIN,
    ensures
        r as int == tdiv(n as int, d as int),
{
    let nn: u128 = if n >= 0 { n as u128 } else { (-n) as u128 };
    let dd: u128 = if d >= 0 { d as u128 } else { (-d) as u128 };
    let q: u128 = nn / dd;
    assert(q as int == abs1(n as int) / abs1(d as int));
    assert(q <= nn);
    if (n >= 0) == (d >= 0) {
        q as i128
    } else {
        -(q as i128)
    }
}

/// Fixed-point multiplication: `(a * b) / SCALE`, rounded toward zero.
pub fn fmul(a: i64, b: i64) -> (r: i64)
    requires
        in_i64(fmul_spec(a as int, b as int)),
    ensures
        r as int == fmul_spec(a as int, b as int),
{
    proof {
        assert(i128::MIN < (a as int) * (b as int) < i128::MAX) by (nonlinear_arith)
            requires
                i64::MIN <= a <= i64::MAX,
                i64::MIN <= b <= i64::MAX,
        ;
    }
    let p: i128 = (a as i128) * (b as i128);
    let q: i128 = div_trunc(p, SCALE as i128);
    q as i64
}

/// Fixed-point division: `(a * SCALE) / b`, rounded toward zero.
pub fn fdiv(a: i64, b: i64) -> (r: i64)
    requires
        b != 0,
        in_i64(fdiv_spec(a as int, b as int)),
    ensures
        r as int == fdiv_spec(a as int, b as int),
{
    let p: i128 = (a as i128) * (SCALE as i128);
    let q: i128 = div_trunc(p, b as i128);
    q as i64
}

/// The integer square root: the greatest `r` with `r * r <= n`.
pub open spec fn isqrt_spec(n: int) -> int
    decreases n,
{
    if n <= 0 {
        0
    } else if n < 4 {
        1
    } else {
        let s = 2 * isqrt_spec(n / 4);
        if (s + 1) * (s + 1) <= n {
            s + 1
        } else {
            s
        }
    }
}

/// `isqrt_spec(n)` is the integer square root of `n`.
pub proof fn lemma_isqrt_spec(n: int)
    requires
        n >= 0,
    ensures
        isqrt_spec(n) >= 0,
        isqrt_spec(n) * isqrt_spec(n) <= n,
        n < (isqrt_spec(n) + 1) * (isqrt_spec(n) + 1),
    decreases n,
{
    if n <= 0 {
        assert(isqrt_spec(n) == 0);
        assert(isqrt_spec(n) * isqrt_spec(n) == 0 && (isqrt_spec(n) + 1) * (isqrt_spec(n) + 1) == 1)
            by (nonlinear_arith)
            requires isqrt_spec(n) == 0,
        ;
    } else if n < 4 {
        assert(isqrt_spec(n) == 1);
        assert(isqrt_spec(n) * isqrt_spec(n) == 1 && (isqrt_spec(n) + 1) * (isqrt_spec(n) + 1) == 4)
            by (nonlinear_arith)
            requires isqrt_spec(n) == 1,
        ;
    } else {
        lemma_isqrt_spec(n / 4);
        let s0 = isqrt_spec(n / 4);
        let s = 2 * s0;
        assert(4 * (n / 4) <= n && n <= 4 * (n / 4) + 3) by (nonlinear_arith)
            requires n >= 4,
        ;
        assert(s * s <= n) by (nonlinear_arith)
            requires s == 2 * s0, s0 * s0 <= n / 4, 4 * (n / 4) <= n,
        ;
        assert(n < (s + 2) * (s + 2)) by (nonlinear_arith)
            requires s == 2 * s0, n / 4 < (s0 + 1) * (s0 + 1), n <= 4 * (n / 4) + 3,
        ;
        if (s + 1) * (s + 1) <= n {
            assert(isqrt_spec(n) == s + 1);
            assert(n < (isqrt_spec(n) + 1) * (isqrt_spec(n) + 1)) by (nonlinear_arith)
                requires isqrt_spec(n) == s + 1, n < (s + 2) * (s + 2),
            ;
        } else {
            assert(isqrt_spec(n) == s);
            assert(n < (isqrt_spec(n) + 1) * (isqrt_spec(n) + 1)) by (nonlinear_arith)
                requires isqrt_spec(n) == s, n < (s + 1) * (s + 1),
            ;
        }
    }
}

/// Any value bracketed like an integer square root is the integer square root.
pub proof fn lemma_isqrt_unique(n: int, r: int)
    requires
        n >= 0,
        r >= 0,
        r * r <= n,
        n < (r + 1) * (r + 1),
    ensures
        r == isqrt_spec(n),
{
    lemma_isqrt_spec(n);
    let s = isqrt_spec(n);
    if r < s {
        assert((r + 1) * (r + 1) <= s * s) by (nonlinear_arith)
            requires 0 <= r, r < s,
        ;
    } else if s < r {
        assert((s + 1) * (s + 1) <= r * r) by (nonlinear_arith)
            requires 0 <= s, s < r,
        ;
    }
}

/// Integer square root of a `u128`, by bisection.
pub fn isqrt_u128(n: u128) -> (r: u128)
    ensures
        r as int == isqrt_spec(n as int),
{
    if n < 2 {
        proof {
            if n == 0 {
                assert(isqrt_spec(0) == 0);
            } else {
                assert(isqrt_spec(1) == 1);
            }
        }
        return n;
    }
    let mut lo: u128 = 1;
    let mut hi: u128 = 0x1_0000_0000_0000_0000;
    proof {
        assert((hi as int) * (hi as int) > u128::MAX) by (nonlinear_arith)
            requires hi == 0x1_0000_0000_0000_0000u128,
        ;
    }
    while lo + 1 < hi
        invariant
            1 <= lo < hi <= 0x1_0000_0000_0000_0000u128,
            (lo as int) * (lo as int) <= n as int,
            (n as int) < (hi as int) * (hi as int),
        decreases hi - lo,
    {
        let mid: u128 = lo + (hi - lo) / 2;
        proof {
            assert((mid as int) * (mid as int) <= u128::MAX) by (nonlinear_arith)
                requires 0 <= mid < 0x1_0000_0000_0000_0000u128,
            ;
        }
        if mid * mid <= n {
            lo = mid;
        } else {
            hi = mid;
        }
    }
    proof {
        lemma_isqrt_unique(n as int, lo as int);
    }
    lo
}

/// The square root of a fixed-point scalar, as a fixed-point scalar
/// rounded down: `isqrt(x * SCALE)`.
pub open spec fn fsqrt_spec(x: int) -> int {
    isqrt_spec(x * SCALE)
}

/// Fixed-point square root, rounded down.
pub fn fsqrt(x: i64) -> (r: i64)
    requires
        x >= 0,
    ensures
        r as int == fsqrt_spec(x as int),
        0 <= r < 0x100_0000_0000,
{
    proof {
        assert((x as int) * (SCALE as int) <= (i64::MAX as int) * (SCALE as int)) by (nonlinear_arith)
            requires 0 <= x <= i64::MAX, SCALE == 65536i64,
        ;
    }
    let p: u128 = (x as u128) * (SCALE as u128);
    let r = isqrt_u128(p);
    proof {
        lemma_isqrt_spec(p as int);
        assert(isqrt_spec(p as int) < 0x100_0000_0000) by (nonlinear_arith)
            requires
                isqrt_spec(p as int) * isqrt_spec(p as int) <= p as int,
                p as int <= (i64::MAX as int) * (SCALE as int),
                SCALE == 65536i64,
                isqrt_spec(p as int) >= 0,
        ;
    }
    r as i64
}

/// Rounding toward zero never grows the dividend's size.
pub proof fn lemma_tdiv_le_abs(n: int, d: int)
    requires
        d != 0,
    ensures
        abs1(tdiv(n, d)) <= abs1(n),
{
    vstd::arithmetic::div_mod::lemma_div_pos_is_pos(abs1(n), abs1(d));
    vstd::arithmetic::div_mod::lemma_div_nonincreasing(abs1(n), abs1(d));
}

/// Scaling by a factor in [0, 1] never grows a scalar's size; in particular
/// the result always fits.
pub proof fn lemma_scale_unit_bound(v: int, k: int)
    requires
        in_i64(v),
        0 <= k <= SCALE,
    ensures
        in_i64(fmul_spec(v, k)),
        abs1(fmul_spec(v, k)) <= abs1(v),
        v >= 0 ==> 0 <= fmul_spec(v, k) <= v,
        v < 0 ==> v <= fmul_spec(v, k) <= 0,
{
    let p = v * k;
    assert(abs1(p) <= abs1(v) * SCALE && (v >= 0 ==> p >= 0) && (v < 0 ==> p <= 0))
        by (nonlinear_arith)
        requires
            0 <= k <= SCALE,
            SCALE == 65536i64,
            p == v * k,
            abs1(v) == (if v >= 0 { v } else { -v }),
            abs1(p) == (if p >= 0 { p } else { -p }),
    ;
    vstd::arithmetic::div_mod::lemma_multiply_divide_le(abs1(p), SCALE as int, abs1(v));
    vstd::arithmetic::div_mod::lemma_div_pos_is_pos(abs1(p), SCALE as int);
}

/// A fixed-point product of two scalars in [0, 1] stays in [0, 1].
pub proof fn lemma_fmul_unit_range(a: int, b: int)
    requires
        0 <= a <= SCALE,
        0 <= b <= SCALE,
    ensures
        0 <= fmul_spec(a, b) <= SCALE,
{
    assert(0 <= a * b <= (SCALE as int) * (SCALE as int)) by (nonlinear_arith)
        requires 0 <= a <= SCALE, 0 <= b <= SCALE,
    ;
    vstd::arithmetic::div_mod::lemma_div_pos_is_pos(a * b, SCALE as int);
    vstd::arithmetic::div_mod::lemma_multiply_divide_le(a * b, SCALE as int, SCALE as int);
}

/// A fixed-point square root of a scalar in [0, 1] stays in [0, 1].
pub proof fn lemma_fsqrt_unit_range(x: int)
    requires
        0 <= x <= SCALE,
    ensures
        0 <= fsqrt_spec(x) <= SCALE,
{
    assert(0 <= x * SCALE <= (SCALE as int) * (SCALE as int)) by (nonlinear_arith)
        requires 0 <= x <= SCALE, SCALE == 65536i64,
    ;
    lemma_isqrt_spec(x * SCALE);
    let r = isqrt_spec(x * SCALE);
    assert(r <= SCALE) by (nonlinear_arith)
        requires
            r >= 0,
            r * r <= x * (SCALE as int),
            x * (SCALE as int) <= (SCALE as int) * (SCALE as int),
            SCALE == 65536i64,
    ;
}

/// `b` raised to the whole number `n`, one rounded fixed-point
/// multiplication per step.
pub open spec fn powi_spec(b: int, n: nat) -> int
    decreases n,
{
    if n == 0 {
        SCALE as int
    } else {
        fmul_spec(powi_spec(b, (n - 1) as nat), b)
    }
}

/// Whole-number powers of a scalar in [0, 1] stay in [0, 1].
pub proof fn lemma_powi_unit_range(b: int, n: nat)
    requires
        0 <= b <= SCALE,
    ensures
        0 <= powi_spec(b, n) <= SCALE,
    decreases n,
{
    if n > 0 {
        lemma_powi_unit_range(b, (n - 1) as nat);
        lemma_fmul_unit_range(powi_spec(b, (n - 1) as nat), b);
    }
}

/// The fractional-exponent chain: `bitval` walks the binary digits of the
/// remaining exponent `f` downward; `s` is the square root of the base taken
/// once per digit, and each digit that is set multiplies `s` into `acc`.
pub open spec fn fracpow_rec(acc: int, s: int, f: int, bitval: int) -> int
    decreases bitval,
{
    if bitval <= 0 {
        acc
    } else {
        let s2 = fsqrt_spec(s);
        if f >= bitval {
            fracpow_rec(fmul_spec(acc, s2), s2, f - bitval, bitval / 2)
        } else {
            fracpow_rec(acc, s2, f, bitval / 2)
        }
    }
}

/// The fractional chain keeps scalars in [0, 1] inside [0, 1].
pub proof fn lemma_fracpow_unit_range(acc: int, s: int, f: int, bitval: int)
    requires
        0 <= acc <= SCALE,
        0 <= s <= SCALE,
    ensures
        0 <= fracpow_rec(acc, s, f, bitval) <= SCALE,
    decreases bitval,
{
    if bitval > 0 {
        lemma_fsqrt_unit_range(s);
        let s2 = fsqrt_spec(s);
        if f >= bitval {
            lemma_fmul_unit_range(acc, s2);
            lemma_fracpow_unit_range(fmul_spec(acc, s2), s2, f - bitval, bitval / 2);
        } else {
            lemma_fracpow_unit_range(acc, s2, f, bitval / 2);
        }
    }
}

/// `b^(e / SCALE)` for a base in [0, 1]: the whole part of the exponent by
/// repeated multiplication, its fractional bits by iterated square roots.
pub open spec fn fpow_spec(b: int, e: int) -> int {
    fracpow_rec(powi_spec(b, (e / (SCALE as int)) as nat), b, e % (SCALE as int), (SCALE as int) / 2)
}

/// Multiplying by one is exact.
proof fn lemma_fmul_one(a: int)
    ensures
        fmul_spec(a, SCALE as int) == a,
{
    lemma_tdiv_mul_cancel(a, SCALE as int);
}

/// Every whole power of one is one.
proof fn lemma_powi_one(n: nat)
    ensures
        powi_spec(SCALE as int, n) == SCALE,
    decreases n,
{
    if n > 0 {
        lemma_powi_one((n - 1) as nat);
        lemma_fmul_one(SCALE as int);
    }
}

/// The fractional chain on a base of one changes nothing.
proof fn lemma_fracpow_one(acc: int, f: int, bitval: int)
    ensures
        fracpow_rec(acc, SCALE as int, f, bitval) == acc,
    decreases bitval,
{
    if bitval > 0 {
        assert((SCALE as int) * SCALE < ((SCALE as int) + 1) * ((SCALE as int) + 1))
            by (nonlinear_arith);
        lemma_isqrt_unique((SCALE as int) * SCALE, SCALE as int);
        assert(fsqrt_spec(SCALE as int) == SCALE);
        if f >= bitval {
            lemma_fmul_one(acc);
            lemma_fracpow_one(fmul_spec(acc, SCALE as int), f - bitval, bitval / 2);
        } else {
            lemma_fracpow_one(acc, f, bitval / 2);
        }
    }
}

/// A base of exactly one raised to any nonnegative exponent is one: full
/// damping attenuates nothing, whatever the step length.
pub proof fn lemma_fpow_one(e: int)
    requires
        e >= 0,
    ensures
        fpow_spec(SCALE as int, e) == SCALE,
{
    lemma_powi_one((e / (SCALE as int)) as nat);
    lemma_fracpow_one(SCALE as int, e % (SCALE as int), (SCALE as int) / 2);
}

/// Fixed-point power of a scalar base in [0, 1] to a nonnegative
/// fixed-point exponent.
pub fn fpow(b: i64, e: i64) -> (r: i64)
    requires
        0 <= b <= SCALE,
        e >= 0,
    ensures
        r as int == fpow_spec(b as int, e as int),
        0 <= r <= SCALE,
{
    let n: u64 = (e as u64) / (SCALE as u64);
    let mut fr: u64 = (e as u64) % (SCALE as u64);
    let mut acc: i64 = SCALE;
    let mut i: u64 = 0;
    while i < n
        invariant
            0 <= b <= SCALE,
            i <= n,
            acc as int == powi_spec(b as int, i as nat),
            0 <= acc <= SCALE,
        decreases n - i,
    {
        proof {
            lemma_fmul_unit_range(acc as int, b as int);
        }
        acc = fmul(acc, b);
        i = i + 1;
    }
    let mut s: i64 = b;
    let mut bitval: u64 = 32768;
    proof {
        assert(n as int == (e as int) / (SCALE as int));
        assert(fr as int == (e as int) % (SCALE as int));
    }
    while bitval > 0
        invariant
            0 <= acc <= SCALE,
            0 <= s <= SCALE,
            fracpow_rec(acc as int, s as int, fr as int, bitval as int)
                == fpow_spec(b as int, e as int),
        decreases bitval,
    {
        proof {
            lemma_fsqrt_unit_range(s as int);
        }
        let s2: i64 = fsqrt(s);
        if fr >= bitval {
            proof {
                lemma_fmul_unit_range(acc as int, s2 as int);
            }
            acc = fmul(acc, s2);
            fr = fr - bitval;
        }
        s = s2;
        bitval = bitval / 2;
    }
    proof {
        lemma_fracpow_unit_range(acc as int, s as int, fr as int, 0);
    }
    acc
}

/// Fixed-point multiplication that reports instead of overflowing.
pub fn checked_fmul(a: i64, b: i64) -> (r: Option<i64>)
    ensures
        r == if in_i64(fmul_spec(a as int, b as int)) {
            Some(fmul_spec(a as int, b as int) as i64)
        } else {
            None::<i64>
        },
{
    proof {
        assert(i128::MIN < (a as int) * (b as int) < i128::MAX) by (nonlinear_arith)
            requires
                i64::MIN <= a <= i64::MAX,
                i64::MIN <= b <= i64::MAX,
        ;
    }
    let p: i128 = (a as i128) * (b as i128);
    let q: i128 = div_trunc(p, SCALE as i128);
    if -0x8000_0000_0000_0000i128 <= q && q <= 0x7fff_ffff_ffff_ffffi128 {
        Some(q as i64)
    } else {
        None
    }
}

/// Fixed-point division that reports instead of overflowing.
pub fn checked_fdiv(a: i64, b: i64) -> (r: Option<i64>)
    requires
        b != 0,
    ensures
        r == if in_i64(fdiv_spec(a as int, b as int)) {
            Some(fdiv_spec(a as int, b as int) as i64)
        } else {
            None::<i64>
        },
{
    proof {
        assert(i128::MIN < (a as int) * (SCALE as int) < i128::MAX) by (nonlinear_arith)
            requires
                i64::MIN <= a <= i64::MAX,
                SCALE == 65536i64,
        ;
    }
    let p: i128 = (a as i128) * (SCALE as i128);
    let q: i128 = div_trunc(p, b as i128);
    if -0x8000_0000_0000_0000i128 <= q && q <= 0x7fff_ffff_ffff_ffffi128 {
        Some(q as i64)
    } else {
        None
    }
}

/// Plain integer multiplication that reports instead of overflowing.
pub fn checked_int_mul(a: i64, b: i64) -> (r: Option<i64>)
    ensures
        r == if in_i64(a as int * b as int) {
            Some((a as int * b as int) as i64)
        } else {
            None::<i64>
        },
{
    proof {
        assert(i128::MIN < (a as int) * (b as int) < i128::MAX) by (nonlinear_arith)
            requires
                i64::MIN <= a <= i64::MAX,
                i64::MIN <= b <= i64::MAX,
        ;
    }
    let p: i128 = (a as i128) * (b as i128);
    if -0x8000_0000_0000_0000i128 <= p && p <= 0x7fff_ffff_ffff_ffffi128 {
        Some(p as i64)
    } else {
        None
    }
}

/// Addition that reports instead of overflowing.
pub fn checked_add64(a: i64, b: i64) -> (r: Option<i64>)
    ensures
        r == if in_i64(a as int + b as int) {
            Some((a as int + b as int) as i64)
        } else {
            None::<i64>
        },
{
    let p: i128 = (a as i128) + (b as i128);
    if -0x8000_0000_0000_0000i128 <= p && p <= 0x7fff_ffff_ffff_ffffi128 {
        Some(p as i64)
    } else {
        None
    }
}

/// Subtraction that reports instead of overflowing.
pub fn checked_sub64(a: i64, b: i64) -> (r: Option<i64>)
    ensures
        r == if in_i64(a as int - b as int) {
            Some((a as int - b as int) as i64)
        } else {
            None::<i64>
        },
{
    let p: i128 = (a as i128) - (b as i128);
    if -0x8000_0000_0000_0000i128 <= p && p <= 0x7fff_ffff_ffff_ffffi128 {
        Some(p as i64)
    } else {
        None
    }
}

/// Pi on the fixed-point grid, rounded to the nearest unit.
pub const PI_FX: i64 = 205887;

/// Two pi on the fixed-point grid, rounded to the nearest unit.
pub const TWO_PI_FX: i64 = 411775;

/// 1/e on the fixed-point grid, rounded down.
pub const INV_E_FX: i64 = 24109;

/// Division toward zero of two scalars, as plain integers (no rescaling).
pub fn ftrunc_div(n: i64, d: i64) -> (r: i64)
    requires
        d > 0,
    ensures
        r as int == tdiv(n as int, d as int),
        abs1(r as int) <= abs1(n as int),
        n >= 0 ==> 0 <= r <= n,
        n < 0 ==> n <= r <= 0,
{
    proof {
        lemma_tdiv_le_abs(n as int, d as int);
        vstd::arithmetic::div_mod::lemma_div_pos_is_pos(abs1(n as int), d as int);
    }
    let q = div_trunc(n as i128, d as i128);
    q as i64
}

/// The size of a truncated quotient, from a bound on the dividend.
pub proof fn lemma_tdiv_abs_le(n: int, d: int, bn: int)
    requires
        d > 0,
        abs1(n) <= bn,
    ensures
        abs1(tdiv(n, d)) <= bn / d,
{
    vstd::arithmetic::div_mod::lemma_div_is_ordered(abs1(n), bn, d);
    vstd::arithmetic::div_mod::lemma_div_pos_is_pos(abs1(n), d);
}

/// The size of a fixed-point product, from the sizes of its factors.
pub proof fn lemma_fmul_abs(a: int, b: int, ba: int, bb: int)
    requires
        abs1(a) <= ba,
        abs1(b) <= bb,
        0 <= ba,
        0 <= bb,
    ensures
        abs1(fmul_spec(a, b)) <= (ba * bb) / (SCALE as int),
{
    let p = a * b;
    assert(abs1(p) <= ba * bb) by (nonlinear_arith)
        requires
            abs1(a) <= ba,
            abs1(b) <= bb,
            0 <= ba,
            0 <= bb,
            p == a * b,
            abs1(a) == (if a >= 0 { a } else { -a }),
            abs1(b) == (if b >= 0 { b } else { -b }),
            abs1(p) == (if p >= 0 { p } else { -p }),
    ;
    vstd::arithmetic::div_mod::lemma_div_is_ordered(abs1(p), ba * bb, SCALE as int);
    vstd::arithmetic::div_mod::lemma_div_pos_is_pos(abs1(p), SCALE as int);
}

/// The remainder left by division toward zero is smaller than the divisor
/// and carries the dividend's sign.
pub proof fn lemma_tdiv_rem(n: int, d: int)
    requires
        d > 0,
    ensures
        abs1(n - tdiv(n, d) * d) < d,
        abs1(tdiv(n, d) * d) <= abs1(n),
{
    if n >= 0 {
        vstd::arithmetic::div_mod::lemma_fundamental_div_mod(n, d);
        vstd::arithmetic::div_mod::lemma_mod_division_less_than_divisor(n, d);
        assert(tdiv(n, d) * d == d * (n / d)) by (nonlinear_arith)
            requires tdiv(n, d) == n / d,
        ;
        vstd::arithmetic::div_mod::lemma_div_pos_is_pos(n, d);
        assert(0 <= (n / d) * d) by (nonlinear_arith)
            requires n / d >= 0, d > 0,
        ;
    } else {
        let m = -n;
        vstd::arithmetic::div_mod::lemma_fundamental_div_mod(m, d);
        vstd::arithmetic::div_mod::lemma_mod_division_less_than_divisor(m, d);
        assert(tdiv(n, d) * d == -(d * (m / d))) by (nonlinear_arith)
            requires tdiv(n, d) == -(m / d),
        ;
        vstd::arithmetic::div_mod::lemma_div_pos_is_pos(m, d);
        assert(0 <= (m / d) * d && (m / d) * d == d * (m / d)) by (nonlinear_arith)
            requires m / d >= 0, d > 0,
        ;
    }
}

/// An angle folded into (-TWO_PI_FX, TWO_PI_FX) by the remainder toward
/// zero, then shifted into [-PI_FX - 1, PI_FX + 1].
pub open spec fn reduce_spec(x: int) -> int {
    let m = x - tdiv(x, TWO_PI_FX as int) * (TWO_PI_FX as int);
    if m > PI_FX {
        m - TWO_PI_FX
    } else if m < -(PI_FX as int) {
        m + TWO_PI_FX
    } else {
        m
    }
}

/// Folds an angle into one period around zero.
pub fn reduce_angle(x: i64) -> (r: i64)
    ensures
        r as int == reduce_spec(x as int),
        abs1(r as int) <= PI_FX + 1,
{
    proof {
        lemma_tdiv_rem(x as int, TWO_PI_FX as int);
        lemma_tdiv_le_abs(x as int, TWO_PI_FX as int);
    }
    let k: i128 = div_trunc(x as i128, TWO_PI_FX as i128);
    let m: i64 = ((x as i128) - k * (TWO_PI_FX as i128)) as i64;
    if m > PI_FX {
        m - TWO_PI_FX
    } else if m < -PI_FX {
        m + TWO_PI_FX
    } else {
        m
    }
}

/// The truncated Maclaurin polynomial for the sine, in nested form, of an
/// angle already reduced to one period.
pub open spec fn sin_poly_spec(x: int) -> int {
    let u = fmul_spec(x, x);
    let t1 = SCALE - tdiv(fmul_spec(u, SCALE as int), 110);
    let t2 = SCALE - tdiv(fmul_spec(u, t1), 72);
    let t3 = SCALE - tdiv(fmul_spec(u, t2), 42);
    let t4 = SCALE - tdiv(fmul_spec(u, t3), 20);
    let t5 = SCALE - tdiv(fmul_spec(u, t4), 6);
    fmul_spec(x, t5)
}

/// The sine of a fixed-point angle: the angle is folded into one period and
/// the truncated series evaluated there.
pub open spec fn sin_fx_spec(x: int) -> int {
    sin_poly_spec(reduce_spec(x))
}

/// The fixed-point sine.
pub fn sin_fx(x: i64) -> (r: i64)
    ensures
        r as int == sin_fx_spec(x as int),
        abs1(r as int) <= 900000,
{
    let xr = reduce_angle(x);
    proof {
        lemma_fmul_abs(xr as int, xr as int, 205888, 205888);
    }
    let u = fmul(xr, xr);
    proof {
        lemma_fmul_abs(u as int, SCALE as int, 650000, 65536);
    }
    let p1 = fmul(u, SCALE);
    proof {
        lemma_tdiv_abs_le(p1 as int, 110, 650000);
    }
    let t1 = SCALE - ftrunc_div(p1, 110);
    proof {
        lemma_fmul_abs(u as int, t1 as int, 650000, 75000);
    }
    let p2 = fmul(u, t1);
    proof {
        lemma_tdiv_abs_le(p2 as int, 72, 743866);
    }
    let t2 = SCALE - ftrunc_div(p2, 72);
    proof {
        lemma_fmul_abs(u as int, t2 as int, 650000, 80000);
    }
    let p3 = fmul(u, t2);
    proof {
        lemma_tdiv_abs_le(p3 as int, 42, 793458);
    }
    let t3 = SCALE - ftrunc_div(p3, 42);
    proof {
        lemma_fmul_abs(u as int, t3 as int, 650000, 90000);
    }
    let p4 = fmul(u, t3);
    proof {
        lemma_tdiv_abs_le(p4 as int, 20, 892640);
    }
    let t4 = SCALE - ftrunc_div(p4, 20);
    proof {
        lemma_fmul_abs(u as int, t4 as int, 650000, 120000);
    }
    let p5 = fmul(u, t4);
    proof {
        lemma_tdiv_abs_le(p5 as int, 6, 1190186);
    }
    let t5 = SCALE - ftrunc_div(p5, 6);
    proof {
        lemma_fmul_abs(xr as int, t5 as int, 205888, 270000);
    }
    fmul(xr, t5)
}

/// The truncated Maclaurin polynomial for the cosine, in nested form, of an
/// angle already reduced to one period.
pub open spec fn cos_poly_spec(x: int) -> int {
    let u = fmul_spec(x, x);
    let c4 = SCALE - tdiv(fmul_spec(u, SCALE as int), 90);
    let c3 = SCALE - tdiv(fmul_spec(u, c4), 56);
    let c2 = SCALE - tdiv(fmul_spec(u, c3), 30);
    let c1 = SCALE - tdiv(fmul_spec(u, c2), 12);
    SCALE - tdiv(fmul_spec(u, c1), 2)
}

/// The cosine of a fixed-point angle: the angle is folded into one period
/// and the truncated series evaluated there.
pub open spec fn cos_fx_spec(x: int) -> int {
    cos_poly_spec(reduce_spec(x))
}

/// The fixed-point cosine.
pub fn cos_fx(x: i64) -> (r: i64)
    ensures
        r as int == cos_fx_spec(x as int),
        abs1(r as int) <= 900000,
{
    let xr = reduce_angle(x);
    proof {
        lemma_fmul_abs(xr as int, xr as int, 205888, 205888);
    }
    let u = fmul(xr, xr);
    proof {
        lemma_fmul_abs(u as int, SCALE as int, 650000, 65536);
    }
    let p1 = fmul(u, SCALE);
    proof {
        lemma_tdiv_abs_le(p1 as int, 90, 650000);
    }
    let c4 = SCALE - ftrunc_div(p1, 90);
    proof {
        lemma_fmul_abs(u as int, c4 as int, 650000, 75000);
    }
    let p2 = fmul(u, c4);
    proof {
        lemma_tdiv_abs_le(p2 as int, 56, 743866);
    }
    let c3 = SCALE - ftrunc_div(p2, 56);
    proof {
        lemma_fmul_abs(u as int, c3 as int, 650000, 80000);
    }
    let p3 = fmul(u, c3);
    proof {
        lemma_tdiv_abs_le(p3 as int, 30, 793458);
    }
    let c2 = SCALE - ftrunc_div(p3, 30);
    proof {
        lemma_fmul_abs(u as int, c2 as int, 650000, 95000);
    }
    let p4 = fmul(u, c2);
    proof {
        lemma_tdiv_abs_le(p4 as int, 12, 942231);
    }
    let c1 = SCALE - ftrunc_div(p4, 12);
    proof {
        lemma_fmul_abs(u as int, c1 as int, 650000, 150000);
    }
    let p5 = fmul(u, c1);
    proof {
        lemma_tdiv_abs_le(p5 as int, 2, 1487732);
    }
    SCALE - ftrunc_div(p5, 2)
}

/// The truncated series for `e^(-f/SCALE)` with `f` in [0, SCALE), in
/// nested form; every intermediate lies in [0, SCALE].
pub open spec fn expfrac_spec(f: int) -> int {
    let g4 = SCALE - tdiv(f, 5);
    let g3 = SCALE - tdiv(fmul_spec(f, g4), 4);
    let g2 = SCALE - tdiv(fmul_spec(f, g3), 3);
    let g1 = SCALE - tdiv(fmul_spec(f, g2), 2);
    SCALE - fmul_spec(f, g1)
}

/// `e^(x/SCALE)` for a nonpositive exponent: whole steps through powers of
/// 1/e, the fractional remainder through the truncated series.
pub open spec fn exp_neg_spec(x: int) -> int {
    fmul_spec(
        powi_spec(INV_E_FX as int, ((-x) / (SCALE as int)) as nat),
        expfrac_spec((-x) % (SCALE as int)),
    )
}

/// A term of the fractional exponential chain stays in [0, SCALE] when the
/// fraction does.
proof fn lemma_expfrac_step(f: int, g: int, d: int)
    requires
        0 <= f < SCALE,
        0 <= g <= SCALE,
        d >= 1,
    ensures
        0 <= SCALE - tdiv(fmul_spec(f, g), d) <= SCALE,
        in_i64(fmul_spec(f, g)),
{
    lemma_fmul_unit_range(f, g);
    let p = fmul_spec(f, g);
    vstd::arithmetic::div_mod::lemma_div_pos_is_pos(p, d);
    vstd::arithmetic::div_mod::lemma_div_is_ordered(p, SCALE as int, d);
    vstd::arithmetic::div_mod::lemma_div_nonincreasing(p, d);
}

/// The fixed-point exponential of a nonpositive exponent.
pub fn exp_neg(x: i64) -> (r: i64)
    requires
        i64::MIN < x <= 0,
    ensures
        r as int == exp_neg_spec(x as int),
        0 <= r <= SCALE,
{
    let y: i64 = -x;
    let n: u64 = (y as u64) / 65536;
    let f: i64 = ((y as u64) % 65536) as i64;
    let mut acc: i64 = SCALE;
    let mut i: u64 = 0;
    while i < n
        invariant
            i <= n,
            acc as int == powi_spec(INV_E_FX as int, i as nat),
            0 <= acc <= SCALE,
        decreases n - i,
    {
        proof {
            lemma_fmul_unit_range(acc as int, INV_E_FX as int);
        }
        acc = fmul(acc, INV_E_FX);
        i = i + 1;
    }
    proof {
        vstd::arithmetic::div_mod::lemma_div_pos_is_pos(f as int, 5);
        vstd::arithmetic::div_mod::lemma_div_nonincreasing(f as int, 5);
    }
    let g4 = SCALE - ftrunc_div(f, 5);
    proof {
        lemma_expfrac_step(f as int, g4 as int, 4);
    }
    let g3 = SCALE - ftrunc_div(fmul(f, g4), 4);
    proof {
        lemma_expfrac_step(f as int, g3 as int, 3);
    }
    let g2 = SCALE - ftrunc_div(fmul(f, g3), 3);
    proof {
        lemma_expfrac_step(f as int, g2 as int, 2);
    }
    let g1 = SCALE - ftrunc_div(fmul(f, g2), 2);
    proof {
        lemma_fmul_unit_range(f as int, g1 as int);
    }
    let g0 = SCALE - fmul(f, g1);
    proof {
        lemma_fmul_unit_range(acc as int, g0 as int);
    }
    fmul(acc, g0)
}

} // verus!
