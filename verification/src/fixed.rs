//! Q16.16 fixed-point scalar arithmetic.
//!
//! A scalar is an `i64` holding `value * SCALE`, where `SCALE = 2^16`.
//! Products and quotients are computed in 128-bit intermediates and
//! truncated toward zero, exactly as the spec-level mirrors (`fp_mul`,
//! `fp_div`, `fp_sqrt`) describe, so callers' contracts can speak of the
//! results exactly.

use vstd::prelude::*;

verus! {

/// Number of raw units per 1.0 of real value.
pub const SCALE: i64 = 65536;

/// Absolute value, as a spec-level integer.
pub open spec fn iabs(a: int) -> int {
    if a >= 0 {
        a
    } else {
        -a
    }
}

/// Division truncated toward zero, for a positive divisor.
/// (Spec-level `/` is Euclidean; executable signed division truncates.)
pub open spec fn tdiv(a: int, b: int) -> int {
    if a >= 0 {
        a / b
    } else {
        -((-a) / b)
    }
}

/// Division truncated toward zero, for any nonzero divisor.
pub open spec fn sdiv(a: int, b: int) -> int {
    if (a < 0) == (b < 0) {
        iabs(a) / iabs(b)
    } else {
        -(iabs(a) / iabs(b))
    }
}

/// Product of two fixed-point scalars: (a*b)/SCALE, truncated toward zero.
pub open spec fn fp_mul(a: int, b: int) -> int {
    tdiv(a * b, SCALE as int)
}

/// Quotient of two fixed-point scalars: (a*SCALE)/b, truncated toward zero.
pub open spec fn fp_div(a: int, b: int) -> int {
    sdiv(a * SCALE, b)
}

/// Floor of the square root of a natural number.
pub open spec fn isqrt(n: nat) -> nat
    decreases n,
{
    if n == 0 {
        0
    } else {
        let r = isqrt((n - 1) as nat);
        if (r + 1) * (r + 1) <= n {
            r + 1
        } else {
            r
        }
    }
}

/// Square root of a nonnegative fixed-point scalar: since the argument is
/// value*SCALE, the root of argument*SCALE is again at scale SCALE.
pub open spec fn fp_sqrt(x: int) -> int {
    isqrt((x * SCALE) as nat) as int
}

/// `isqrt(n)` is the floor of the square root: its square is at most `n`,
/// and the next square is beyond `n`.
pub proof fn lemma_isqrt(n: nat)
    ensures
        isqrt(n) * isqrt(n) <= n,
        n < (isqrt(n) + 1) * (isqrt(n) + 1),
    decreases n,
{
    if n == 0 {
        assert(isqrt(0) == 0);
        assert(0 < (0 + 1) * (0 + 1)) by (nonlinear_arith);
    } else {
        lemma_isqrt((n - 1) as nat);
        let r = isqrt((n - 1) as nat);
        assert(r * r <= n - 1);
        assert(n - 1 < (r + 1) * (r + 1));
        if (r + 1) * (r + 1) <= n {
            assert(isqrt(n) == r + 1);
            assert(n == (r + 1) * (r + 1));
            assert((r + 1) * (r + 1) < (r + 1 + 1) * (r + 1 + 1)) by (nonlinear_arith);
            assert(isqrt(n) * isqrt(n) <= n);
            assert(n < (isqrt(n) + 1) * (isqrt(n) + 1));
        } else {
            assert(isqrt(n) == r);
            assert(isqrt(n) * isqrt(n) <= n);
            assert(n < (isqrt(n) + 1) * (isqrt(n) + 1));
        }
    }
}

/// The floor square root is unique: any `r` whose square brackets `n`
/// equals `isqrt(n)`.
pub proof fn lemma_isqrt_unique(n: nat, r: nat)
    requires
        r * r <= n,
        n < (r + 1) * (r + 1),
    ensures
        r == isqrt(n),
{
    lemma_isqrt(n);
    let s = isqrt(n);
    assert(r == s) by (nonlinear_arith)
        requires
            r * r <= n,
            n < (r + 1) * (r + 1),
            s * s <= n,
            n < (s + 1) * (s + 1),
    ;
}

/// Truncating division shrinks magnitude: |tdiv(a,b)| * b <= |a| for b > 0.
pub proof fn lemma_tdiv_abs(a: int, b: int)
    requires
        b > 0,
    ensures
        iabs(tdiv(a, b)) * b <= iabs(a),
        a >= 0 ==> tdiv(a, b) >= 0,
        a <= 0 ==> tdiv(a, b) <= 0,
{
    if a >= 0 {
        vstd::arithmetic::div_mod::lemma_fundamental_div_mod(a, b);
        vstd::arithmetic::div_mod::lemma_div_is_ordered(0, a, b);
        assert((a / b) * b <= a) by (nonlinear_arith)
            requires
                b > 0,
                a == b * (a / b) + a % b,
                0 <= a % b,
        ;
    } else {
        let m = -a;
        vstd::arithmetic::div_mod::lemma_fundamental_div_mod(m, b);
        vstd::arithmetic::div_mod::lemma_div_is_ordered(0, m, b);
        assert((m / b) * b <= m) by (nonlinear_arith)
            requires
                b > 0,
                m == b * (m / b) + m % b,
                0 <= m % b,
        ;
    }
}

/// Truncating division by a positive divisor is monotone.
pub proof fn lemma_tdiv_mono(x: int, y: int, d: int)
    requires
        x <= y,
        d > 0,
    ensures
        tdiv(x, d) <= tdiv(y, d),
{
    if x >= 0 {
        vstd::arithmetic::div_mod::lemma_div_is_ordered(x, y, d);
    } else if y >= 0 {
        lemma_tdiv_abs(x, d);
        lemma_tdiv_abs(y, d);
    } else {
        vstd::arithmetic::div_mod::lemma_div_is_ordered(-y, -x, d);
    }
}

/// Magnitude bound for fixed-point products: |fp_mul(a,b)| * SCALE <= |a| * |b|,
/// with the sign following the signs of the factors.
pub proof fn lemma_fp_mul_abs(a: int, b: int)
    ensures
        iabs(fp_mul(a, b)) * SCALE <= iabs(a) * iabs(b),
        a >= 0 && b >= 0 ==> fp_mul(a, b) >= 0,
        a >= 0 && b <= 0 ==> fp_mul(a, b) <= 0,
        a <= 0 && b >= 0 ==> fp_mul(a, b) <= 0,
        a <= 0 && b <= 0 ==> fp_mul(a, b) >= 0,
{
    lemma_tdiv_abs(a * b, SCALE as int);
    assert(iabs(a * b) == iabs(a) * iabs(b)) by (nonlinear_arith);
    assert(a >= 0 && b >= 0 ==> a * b >= 0) by (nonlinear_arith);
    assert(a >= 0 && b <= 0 ==> a * b <= 0) by (nonlinear_arith);
    assert(a <= 0 && b >= 0 ==> a * b <= 0) by (nonlinear_arith);
    assert(a <= 0 && b <= 0 ==> a * b >= 0) by (nonlinear_arith);
}

/// Magnitude bound for fixed-point quotients: |fp_div(a,b)| * |b| <= |a| * SCALE.
pub proof fn lemma_fp_div_abs(a: int, b: int)
    requires
        b != 0,
    ensures
        iabs(fp_div(a, b)) * iabs(b) <= iabs(a) * SCALE,
        a >= 0 && b > 0 ==> fp_div(a, b) >= 0,
        a <= 0 && b > 0 ==> fp_div(a, b) <= 0,
{
    let s = SCALE as int;
    let n = a * s;
    assert(iabs(n) == iabs(a) * s) by (nonlinear_arith)
        requires
            n == a * s,
            s > 0,
    ;
    lemma_tdiv_abs(iabs(n), iabs(b));
    assert(iabs(b) > 0);
    assert(tdiv(iabs(n), iabs(b)) == iabs(n) / iabs(b));
    assert(iabs(sdiv(n, b)) == iabs(n) / iabs(b));
    assert((iabs(n) / iabs(b)) * iabs(b) <= iabs(n));
    assert(a >= 0 ==> n >= 0) by (nonlinear_arith)
        requires
            n == a * s,
            s > 0,
    ;
    assert(a <= 0 ==> n <= 0) by (nonlinear_arith)
        requires
            n == a * s,
            s > 0,
    ;
}

/// Multiplying by SCALE (the fixed-point 1.0) is the identity.
pub proof fn lemma_fp_mul_one(a: int)
    ensures
        fp_mul(a, SCALE as int) == a,
        fp_mul(SCALE as int, a) == a,
{
    let s = SCALE as int;
    if a >= 0 {
        assert(a * s >= 0) by (nonlinear_arith)
            requires
                a >= 0,
                s > 0,
        ;
        assert((a * s) / s == a) by (nonlinear_arith)
            requires
                s > 0,
        ;
    } else {
        assert(a * s < 0) by (nonlinear_arith)
            requires
                a < 0,
                s > 0,
        ;
        assert((-(a * s)) / s == -a) by (nonlinear_arith)
            requires
                s > 0,
        ;
    }
    assert(a * (SCALE as int) == (SCALE as int) * a) by (nonlinear_arith);
}

/// Products commute.
pub proof fn lemma_fp_mul_comm(a: int, b: int)
    ensures
        fp_mul(a, b) == fp_mul(b, a),
{
    assert(a * b == b * a) by (nonlinear_arith);
}

/// Negating one factor negates the product.
pub proof fn lemma_fp_mul_neg(a: int, b: int)
    ensures
        fp_mul(-a, b) == -fp_mul(a, b),
        fp_mul(a, -b) == -fp_mul(a, b),
{
    assert((-a) * b == -(a * b)) by (nonlinear_arith);
    assert(a * (-b) == -(a * b)) by (nonlinear_arith);
}

/// Clamping into a closed interval.
pub open spec fn clamp(x: int, lo: int, hi: int) -> int {
    if x < lo {
        lo
    } else if x > hi {
        hi
    } else {
        x
    }
}

/// Products of nonnegative integers are monotone in both factors.
pub proof fn lemma_mul_le(a: int, b: int, bound_a: int, bound_b: int)
    requires
        0 <= a <= bound_a,
        0 <= b <= bound_b,
    ensures
        a * b <= bound_a * bound_b,
{
    assert(a * b <= bound_a * bound_b) by (nonlinear_arith)
        requires
            0 <= a <= bound_a,
            0 <= b <= bound_b,
    ;
}

/// Clamp a scalar into a closed interval.
pub fn clamp_i64(x: i64, lo: i64, hi: i64) -> (r: i64)
    ensures
        r == clamp(x as int, lo as int, hi as int),
{
    if x < lo {
        lo
    } else if x > hi {
        hi
    } else {
        x
    }
}

/// Truncating 128-bit division by SCALE, toward zero.
fn div_scale_i128(p: i128) -> (q: i128)
    requires
        p > i128::MIN,
    ensures
        q == tdiv(p as int, SCALE as int),
{
    if p >= 0 {
        ((p as u128) / 65536) as i128
    } else {
        let m: u128 = (-p) as u128;
        -((m / 65536) as i128)
    }
}

/// Fixed-point product of two scalars.
pub fn mul_fp(a: i64, b: i64) -> (r: i64)
    requires
        iabs(fp_mul(a as int, b as int)) <= i64::MAX,
    ensures
        r == fp_mul(a as int, b as int),
{
    let p: i128 = (a as i128) * (b as i128);
    let q = div_scale_i128(p);
    q as i64
}

/// Fixed-point quotient of two scalars.
pub fn div_fp(a: i64, b: i64) -> (r: i64)
    requires
        b != 0,
        iabs(fp_div(a as int, b as int)) <= i64::MAX,
    ensures
        r == fp_div(a as int, b as int),
{
    let n: i128 = (a as i128) * 65536;
    let na: u128 = if n >= 0 {
        n as u128
    } else {
        (-n) as u128
    };
    let ba: u128 = if b >= 0 {
        b as u128
    } else {
        (-(b as i128)) as u128
    };
    let q: u128 = na / ba;
    proof {
        assert(iabs(n as int) == iabs(a as int) * (SCALE as int)) by (nonlinear_arith)
            requires
                n == (a as int) * (SCALE as int),
        ;
        assert(q == iabs(a as int * SCALE) / iabs(b as int));
    }
    if (a < 0) == (b < 0) {
        q as i64
    } else {
        -(q as i64)
    }
}

/// Floor square root of an unsigned 128-bit integer, by bisection.
pub fn isqrt_u128(n: u128) -> (r: u64)
    ensures
        r == isqrt(n as nat),
{
    let mut lo: u128 = 0;
    let mut hi: u128 = 0x1_0000_0000_0000_0000;
    proof {
        assert((n as nat) < (hi as nat) * (hi as nat)) by (nonlinear_arith)
            requires
                hi == 0x1_0000_0000_0000_0000u128,
                n <= u128::MAX,
        ;
    }
    while lo + 1 < hi
        invariant
            lo < hi,
            hi <= 0x1_0000_0000_0000_0000u128,
            (lo as nat) * (lo as nat) <= n as nat,
            (n as nat) < (hi as nat) * (hi as nat),
        decreases hi - lo,
    {
        let mid = lo + (hi - lo) / 2;
        proof {
            assert((mid as nat) * (mid as nat) < 0x1_0000_0000_0000_0000_0000_0000_0000_0000)
                by (nonlinear_arith)
                requires
                    mid < 0x1_0000_0000_0000_0000u128,
            ;
        }
        if mid * mid <= n {
            lo = mid;
        } else {
            hi = mid;
        }
    }
    proof {
        assert(hi == lo + 1);
        lemma_isqrt_unique(n as nat, lo as nat);
    }
    lo as u64
}

/// Fixed-point square root of a nonnegative scalar.
pub fn sqrt_fp(x: i64) -> (r: i64)
    requires
        x >= 0,
    ensures
        r == fp_sqrt(x as int),
        r >= 0,
{
    let n: u128 = (x as u128) * 65536;
    let r = isqrt_u128(n);
    proof {
        lemma_isqrt(n as nat);
        assert((r as nat) < 0x1_0000_0000_0000) by (nonlinear_arith)
            requires
                (r as nat) * (r as nat) <= n as nat,
                (n as nat) < 0x1_0000_0000_0000_0000_0000_0000,
        ;
    }
    r as i64
}

/// `isqrt` is positive on positive input.
pub proof fn lemma_isqrt_pos(n: nat)
    requires
        n >= 1,
    ensures
        isqrt(n) >= 1,
{
    lemma_isqrt(n);
    let r = isqrt(n);
    if r == 0 {
        assert(n < 1) by (nonlinear_arith)
            requires
                n < (r + 1) * (r + 1),
                r == 0,
        ;
        assert(false);
    }
}

/// A product bound survives shrinking the known factor: from `q * b <= m`
/// and `1 <= bmin <= b`, also `q * bmin <= m`.
pub proof fn lemma_mul_div_bound(q: int, b: int, bmin: int, m: int)
    requires
        q >= 0,
        1 <= bmin <= b,
        q * b <= m,
    ensures
        q * bmin <= m,
{
    assert(q * bmin <= q * b) by (nonlinear_arith)
        requires
            q >= 0,
            bmin <= b,
    ;
}

/// From `q * b <= m` with a positive divisor, `q <= m`.
pub proof fn lemma_div_le_num(q: int, b: int, m: int)
    requires
        q >= 0,
        b >= 1,
        q * b <= m,
    ensures
        q <= m,
{
    assert(q <= m) by (nonlinear_arith)
        requires
            q >= 0,
            b >= 1,
            q * b <= m,
    ;
}

/// Truncating 128-bit signed division by a positive divisor.
pub fn tdiv_i128(n: i128, d: i128) -> (q: i128)
    requires
        d > 0,
        n > i128::MIN,
    ensures
        q == tdiv(n as int, d as int),
        iabs(q as int) * d <= iabs(n as int),
{
    proof {
        lemma_tdiv_abs(n as int, d as int);
        lemma_div_le_num(iabs(tdiv(n as int, d as int)), d as int, iabs(n as int));
    }
    if n >= 0 {
        ((n as u128) / (d as u128)) as i128
    } else {
        let m: u128 = (-n) as u128;
        (-((m / (d as u128)) as i128)) as i128
    }
}

/// Fixed-point division whose numerator times SCALE may exceed 64 bits;
/// the divisor must be positive.
pub fn div_fp_wide(a: i64, b: i64) -> (r: i64)
    requires
        b > 0,
        iabs(fp_div(a as int, b as int)) <= i64::MAX,
    ensures
        r == fp_div(a as int, b as int),
{
    let n: i128 = (a as i128) * 65536;
    let q = tdiv_i128(n, b as i128);
    q as i64
}

/// Multiplying a nonnegative scalar by a factor in [0, 1] shrinks it.
pub proof fn lemma_fp_mul_unit(a: int, b: int)
    requires
        0 <= a,
        0 <= b <= SCALE,
    ensures
        0 <= fp_mul(a, b) <= a,
{
    lemma_fp_mul_abs(a, b);
    assert(a * b <= a * SCALE) by (nonlinear_arith)
        requires
            0 <= a,
            b <= SCALE,
    ;
}

/// Truncating division of a nonnegative scalar by a positive one.
pub fn div_trunc_pos(a: i64, k: i64) -> (r: i64)
    requires
        a >= 0,
        k > 0,
    ensures
        r == tdiv(a as int, k as int),
        0 <= r <= a,
        r * k <= a,
{
    proof {
        lemma_tdiv_abs(a as int, k as int);
        lemma_div_le_num(iabs(tdiv(a as int, k as int)), k as int, a as int);
    }
    ((a as u64) / (k as u64)) as i64
}

} // verus!
