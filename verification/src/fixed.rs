//! Fixed-point arithmetic for stick geometry.
//!
//! Positions are plain signed integers in input-space units. Output values are
//! scaled by [`SCALE`]: an output component of `SCALE` stands for `1.0`. All
//! divisions used by the geometry truncate toward zero, which [`tdiv`]
//! captures at the specification level.

use vstd::arithmetic::div_mod::{
    lemma_div_is_ordered, lemma_div_multiples_vanish, lemma_div_nonincreasing,
    lemma_div_pos_is_pos, lemma_fundamental_div_mod, lemma_mod_bound,
};
use vstd::prelude::*;

verus! {

/// Number of output-value units that stand for a magnitude of `1.0`.
pub const SCALE: i64 = 10000;

/// Largest admissible magnitude of an input-space coordinate.
pub const POS_LIMIT: i64 = 0x100_0000_0000;

/// Magnitude of an integer.
pub open spec fn abs_i(a: int) -> int {
    if a >= 0 {
        a
    } else {
        -a
    }
}

/// Division truncating toward zero (the semantics of `/` on machine integers),
/// for positive divisors.
pub open spec fn tdiv(a: int, b: int) -> int {
    if a >= 0 {
        a / b
    } else {
        -((-a) / b)
    }
}

/// Integer square root, rounded down.
pub open spec fn isqrt_spec(n: nat) -> nat
    decreases n,
{
    if n == 0 {
        0
    } else {
        let r = isqrt_spec((n - 1) as nat);
        if (r + 1) * (r + 1) <= n {
            r + 1
        } else {
            r
        }
    }
}

/// Integer square root, rounded up.
pub open spec fn sqrt_ceil_spec(n: nat) -> nat {
    let r = isqrt_spec(n);
    if r * r < n {
        r + 1
    } else {
        r
    }
}

/// `isqrt_spec(n)` is the exact square root of `n`, rounded down.
pub proof fn lemma_isqrt_bounds(n: nat)
    ensures
        isqrt_spec(n) * isqrt_spec(n) <= n,
        n < (isqrt_spec(n) + 1) * (isqrt_spec(n) + 1),
    decreases n,
{
    let s = isqrt_spec(n);
    if n == 0 {
        assert(s == 0);
        assert(n < (s + 1) * (s + 1)) by (nonlinear_arith)
            requires
                s == 0,
                n == 0,
        ;
    } else {
        lemma_isqrt_bounds((n - 1) as nat);
        let r = isqrt_spec((n - 1) as nat);
        if (r + 1) * (r + 1) <= n {
            assert(s == r + 1);
            assert(s * s <= n) by (nonlinear_arith)
                requires
                    s == r + 1,
                    (r + 1) * (r + 1) <= n,
            ;
            assert(n < (s + 1) * (s + 1)) by (nonlinear_arith)
                requires
                    s == r + 1,
                    n - 1 < (r + 1) * (r + 1),
            ;
        } else {
            assert(s == r);
            assert(s * s <= n) by (nonlinear_arith)
                requires
                    s == r,
                    r * r <= n - 1,
            ;
            assert(n < (s + 1) * (s + 1)) by (nonlinear_arith)
                requires
                    s == r,
                    !((r + 1) * (r + 1) <= n),
            ;
        }
    }
}

/// Any integer between the squares of `r` and `r + 1` pins `isqrt_spec` down.
pub proof fn lemma_isqrt_unique(n: nat, r: nat)
    requires
        r * r <= n,
        n < (r + 1) * (r + 1),
    ensures
        r == isqrt_spec(n),
{
    lemma_isqrt_bounds(n);
    let s = isqrt_spec(n);
    if r < s {
        assert((r + 1) * (r + 1) <= s * s) by (nonlinear_arith)
            requires
                r + 1 <= s,
        ;
    }
    if s < r {
        assert((s + 1) * (s + 1) <= r * r) by (nonlinear_arith)
            requires
                s + 1 <= r,
        ;
    }
}

/// `sqrt_ceil_spec(n)` is the exact square root of `n`, rounded up.
pub proof fn lemma_sqrt_ceil_bounds(n: nat)
    ensures
        n <= sqrt_ceil_spec(n) * sqrt_ceil_spec(n),
        sqrt_ceil_spec(n) >= 1 ==> (sqrt_ceil_spec(n) - 1) * (sqrt_ceil_spec(n) - 1) < n,
{
    lemma_isqrt_bounds(n);
    let r = isqrt_spec(n);
    if !(r * r < n) {
        assert(n == r * r);
        if r >= 1 {
            assert((r - 1) * (r - 1) < r * r) by (nonlinear_arith)
                requires
                    r >= 1,
            ;
        }
    }
}

/// Integer square root of a 128-bit value, rounded down.
pub fn isqrt_u128(n: u128) -> (r: u128)
    ensures
        r as nat == isqrt_spec(n as nat),
        r * r <= n,
        n < (r + 1) * (r + 1),
        r < 0x1_0000_0000_0000_0000,
{
    let mut lo: u128 = 0;
    let mut hi: u128 = 0x1_0000_0000_0000_0000;
    assert(n < hi * hi) by (nonlinear_arith)
        requires
            hi == 0x1_0000_0000_0000_0000,
            n <= u128::MAX,
    ;
    while lo + 1 < hi
        invariant
            lo < hi,
            hi <= 0x1_0000_0000_0000_0000,
            lo * lo <= n,
            n < hi * hi,
        decreases hi - lo,
    {
        let mid = lo + (hi - lo) / 2;
        proof {
            assert(mid * mid <= u128::MAX) by (nonlinear_arith)
                requires
                    mid < 0x1_0000_0000_0000_0000u128,
            ;
        }
        if mid * mid <= n {
            lo = mid;
        } else {
            hi = mid;
        }
    }
    proof {
        lemma_isqrt_unique(n as nat, lo as nat);
    }
    lo
}

/// Integer square root of a 128-bit value, rounded up.
pub fn sqrt_ceil_u128(n: u128) -> (r: u128)
    ensures
        r as nat == sqrt_ceil_spec(n as nat),
        n <= r * r,
        r <= 0x1_0000_0000_0000_0000,
{
    let f = isqrt_u128(n);
    if f * f < n {
        f + 1
    } else {
        f
    }
}

/// `n * SCALE / d`, truncating toward zero.
///
/// This is the per-component scaling of a drag offset by a zone half-extent.
pub fn scale_ratio(n: i64, d: i64) -> (q: i64)
    requires
        1 <= d,
        abs_i(n as int) <= 2 * POS_LIMIT,
    ensures
        q as int == tdiv(n * SCALE, d as int),
        abs_i(q as int) <= 2 * POS_LIMIT * SCALE,
{
    let neg = n < 0;
    let mag: u128 = if neg {
        (-(n as i128)) as u128
    } else {
        n as u128
    };
    let q = mag * (SCALE as u128) / (d as u128);
    proof {
        lemma_div_pos_is_pos((mag * SCALE) as int, d as int);
        lemma_div_nonincreasing((mag * SCALE) as int, d as int);
    }
    if neg {
        -(q as i64)
    } else {
        q as i64
    }
}

/// `v * SCALE / den`, truncating toward zero, for a divisor at least as large
/// as both `SCALE` and the magnitude of `v`; the result stays within
/// `[-SCALE, SCALE]`.
pub fn clamp_ratio(v: i64, den: u128) -> (q: i64)
    requires
        SCALE <= den,
        abs_i(v as int) <= den,
    ensures
        q as int == tdiv(v * SCALE, den as int),
        -SCALE <= q <= SCALE,
{
    let neg = v < 0;
    let mag: u128 = if neg {
        (-(v as i128)) as u128
    } else {
        v as u128
    };
    proof {
        lemma_div_pos_is_pos((mag * SCALE) as int, den as int);
        lemma_div_is_ordered((mag * SCALE) as int, (den * SCALE) as int, den as int);
        lemma_div_multiples_vanish(SCALE as int, den as int);
        assert(mag * SCALE <= den * SCALE) by (nonlinear_arith)
            requires
                mag <= den,
                SCALE >= 0,
        ;
    }
    let q = mag * (SCALE as u128) / den;
    if neg {
        -(q as i64)
    } else {
        q as i64
    }
}

/// Dividing scaled offsets by a divisor that dominates their Euclidean norm
/// keeps the clamped output inside the disc of radius `SCALE`.
pub proof fn lemma_clamped_norm(dx: int, dy: int, den: int)
    requires
        1 <= den,
        dx * dx + dy * dy <= den * den,
    ensures
        tdiv(dx * SCALE, den) * tdiv(dx * SCALE, den) + tdiv(dy * SCALE, den) * tdiv(
            dy * SCALE,
            den,
        ) <= SCALE * SCALE,
{
    let ax = abs_i(dx) * SCALE / den;
    let ay = abs_i(dy) * SCALE / den;
    lemma_tdiv_abs(dx * SCALE, den);
    lemma_tdiv_abs(dy * SCALE, den);
    assert(abs_i(dx * SCALE) == abs_i(dx) * SCALE) by (nonlinear_arith)
        requires
            SCALE >= 0,
    ;
    assert(abs_i(dy * SCALE) == abs_i(dy) * SCALE) by (nonlinear_arith)
        requires
            SCALE >= 0,
    ;
    lemma_floor_quotient_square_bound(abs_i(dx) * SCALE, den);
    lemma_floor_quotient_square_bound(abs_i(dy) * SCALE, den);
    assert((abs_i(dx) * SCALE) * (abs_i(dx) * SCALE) == (dx * dx) * (SCALE * SCALE))
        by (nonlinear_arith);
    assert((abs_i(dy) * SCALE) * (abs_i(dy) * SCALE) == (dy * dy) * (SCALE * SCALE))
        by (nonlinear_arith);
    assert((dx * dx) * (SCALE * SCALE) + (dy * dy) * (SCALE * SCALE) <= (den * den) * (SCALE
        * SCALE)) by (nonlinear_arith)
        requires
            dx * dx + dy * dy <= den * den,
            SCALE * SCALE >= 0,
    ;
    assert(ax * ax + ay * ay <= SCALE * SCALE) by (nonlinear_arith)
        requires
            den >= 1,
            (ax * ax) * (den * den) + (ay * ay) * (den * den) <= (den * den) * (SCALE * SCALE),
    ;
    assert(tdiv(dx * SCALE, den) * tdiv(dx * SCALE, den) == ax * ax) by (nonlinear_arith)
        requires
            abs_i(tdiv(dx * SCALE, den)) == ax,
    ;
    assert(tdiv(dy * SCALE, den) * tdiv(dy * SCALE, den) == ay * ay) by (nonlinear_arith)
        requires
            abs_i(tdiv(dy * SCALE, den)) == ay,
    ;
}

/// Truncating division commutes with negation of the dividend.
pub proof fn lemma_tdiv_neg(a: int, b: int)
    requires
        1 <= b,
    ensures
        tdiv(-a, b) == -tdiv(a, b),
{
    if a == 0 {
        vstd::arithmetic::div_mod::lemma_div_of0(b);
    }
}

/// The magnitude of a truncating quotient is the floor quotient of the
/// magnitudes.
pub proof fn lemma_tdiv_abs(a: int, b: int)
    requires
        1 <= b,
    ensures
        abs_i(tdiv(a, b)) == abs_i(a) / b,
        tdiv(a, b) * tdiv(a, b) == (abs_i(a) / b) * (abs_i(a) / b),
{
    lemma_div_pos_is_pos(abs_i(a), b);
    if a >= 0 {
    } else {
        assert(tdiv(a, b) == -(abs_i(a) / b));
    }
    assert(tdiv(a, b) * tdiv(a, b) == (abs_i(a) / b) * (abs_i(a) / b)) by (nonlinear_arith)
        requires
            abs_i(tdiv(a, b)) == abs_i(a) / b,
    ;
}

/// Squaring a floor quotient and multiplying back by the square of the divisor
/// never exceeds the square of the dividend.
pub proof fn lemma_floor_quotient_square_bound(a: int, b: int)
    requires
        0 <= a,
        1 <= b,
    ensures
        ((a / b) * (a / b)) * (b * b) <= a * a,
{
    lemma_fundamental_div_mod(a, b);
    lemma_mod_bound(a, b);
    lemma_div_pos_is_pos(a, b);
    let q = a / b;
    assert(b * q <= a);
    assert((q * q) * (b * b) <= a * a) by (nonlinear_arith)
        requires
            0 <= q,
            0 <= b,
            b * q <= a,
    ;
}

} // verus!
