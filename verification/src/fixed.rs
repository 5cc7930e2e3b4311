//! Saturating fixed-point scalars.
//!
//! A scalar is an `i64` holding the real value times `FX_ONE` (2^16).
//! Every operation clamps its result into `[-FX_BOUND, FX_BOUND]`, so the
//! arithmetic is total: no input makes an operation fail or wrap.  The spec
//! functions `fx_add_s`, `fx_sub_s`, `fx_mul_s`, `fx_div_s` and `sqrt_floor`
//! are the mathematical meaning of the executable operations, and every
//! executable function here returns exactly its spec counterpart.

use vstd::prelude::*;

verus! {

/// The fixed-point unit: representations are scaled by 2^16.
pub const FX_ONE: i64 = 65536;

/// Magnitude bound of every fixed-point result (2^46).  Small enough that
/// sums of squares of differences stay well inside `i128`/`u128`.
pub const FX_BOUND: i64 = 70368744177664;

/// Distances below this bound (about 0.001) count as degenerate: no spring
/// direction is derived from them.
pub const DIST_EPSILON: i64 = 65;

/// Clamp an integer into the representable fixed-point range.
pub open spec fn sat_s(x: int) -> int {
    if x > FX_BOUND {
        FX_BOUND as int
    } else if x < -(FX_BOUND as int) {
        -(FX_BOUND as int)
    } else {
        x
    }
}

/// True when `x` is a representable fixed-point value.
pub open spec fn in_range(x: int) -> bool {
    -(FX_BOUND as int) <= x <= FX_BOUND as int
}

/// Quotient of `a` by `b`, rounded toward zero.  Meaningful for `b > 0`.
pub open spec fn div_trunc(a: int, b: int) -> int {
    if a >= 0 {
        a / b
    } else {
        -((-a) / b)
    }
}

/// Quotient of `a` by `b`, rounded away from zero.  Meaningful for `b > 0`.
pub open spec fn div_away(a: int, b: int) -> int {
    if a >= 0 {
        (a + b - 1) / b
    } else {
        -((-a + b - 1) / b)
    }
}

/// Saturating fixed-point addition.
pub open spec fn fx_add_s(a: int, b: int) -> int {
    sat_s(a + b)
}

/// Saturating fixed-point subtraction.
pub open spec fn fx_sub_s(a: int, b: int) -> int {
    sat_s(a - b)
}

/// Saturating fixed-point multiplication: the double-width product scaled
/// back down by `FX_ONE`, rounded toward zero.
pub open spec fn fx_mul_s(a: int, b: int) -> int {
    sat_s(div_trunc(a * b, FX_ONE as int))
}

/// Saturating fixed-point division, rounded toward zero.  A non-positive
/// divisor is degenerate and yields zero.
pub open spec fn fx_div_s(a: int, b: int) -> int {
    if b <= 0 {
        0
    } else {
        sat_s(div_trunc(a * FX_ONE, b))
    }
}

/// Saturating product of a plain integer and a fixed-point value.
pub open spec fn fx_scale_s(k: int, a: int) -> int {
    sat_s(k * a)
}

/// `r` is the integer square root of `n`, rounded down.
pub open spec fn is_sqrt_floor(n: int, r: int) -> bool {
    0 <= r && r * r <= n && n < (r + 1) * (r + 1)
}

/// The integer square root of `n`, rounded down (meaningful for `n >= 0`).
pub open spec fn sqrt_floor(n: int) -> int {
    choose|r: int| is_sqrt_floor(n, r)
}

/// Every non-negative integer has a floor square root.
pub proof fn lemma_sqrt_floor_exists(n: int)
    requires
        n >= 0,
    ensures
        is_sqrt_floor(n, sqrt_floor(n)),
    decreases n,
{
    if n == 0 {
        assert(is_sqrt_floor(0, 0));
    } else {
        lemma_sqrt_floor_exists(n - 1);
        let r = sqrt_floor(n - 1);
        if n < (r + 1) * (r + 1) {
            assert(is_sqrt_floor(n, r));
        } else {
            assert(is_sqrt_floor(n, r + 1)) by (nonlinear_arith)
                requires
                    r >= 0,
                    r * r <= n - 1,
                    n - 1 < (r + 1) * (r + 1),
                    n >= (r + 1) * (r + 1),
            ;
        }
    }
}

/// The floor square root is unique.
pub proof fn lemma_sqrt_floor_unique(n: int, r: int)
    requires
        is_sqrt_floor(n, r),
    ensures
        sqrt_floor(n) == r,
{
    let r2 = sqrt_floor(n);
    assert(is_sqrt_floor(n, r2));
    if r2 != r {
        assert(false) by (nonlinear_arith)
            requires
                is_sqrt_floor(n, r),
                is_sqrt_floor(n, r2),
                r2 != r,
        ;
    }
}

/// If `n` is at least `b` squared, its floor square root is at least `b`.
pub proof fn lemma_sqrt_floor_at_least(n: int, b: int)
    requires
        0 <= b,
        b * b <= n,
    ensures
        sqrt_floor(n) >= b,
{
    lemma_sqrt_floor_exists(n);
    let r = sqrt_floor(n);
    if r < b {
        assert(false) by (nonlinear_arith)
            requires
                is_sqrt_floor(n, r),
                0 <= b,
                b * b <= n,
                r < b,
        ;
    }
}

/// Clamp a double-width intermediate into the fixed-point range.
pub fn clamp128(x: i128) -> (r: i64)
    ensures
        r as int == sat_s(x as int),
{
    if x > FX_BOUND as i128 {
        FX_BOUND
    } else if x < -(FX_BOUND as i128) {
        -FX_BOUND
    } else {
        x as i64
    }
}

/// Double-width quotient rounded toward zero, for a positive divisor.
fn div_trunc128(p: i128, d: i128) -> (q: i128)
    requires
        d > 0,
        p > i128::MIN,
    ensures
        q as int == div_trunc(p as int, d as int),
{
    if p >= 0 {
        ((p as u128) / (d as u128)) as i128
    } else {
        let m: u128 = ((-p) as u128) / (d as u128);
        -(m as i128)
    }
}

/// Rounding a non-negative quotient up never exceeds the dividend.
proof fn lemma_div_away_bound(p: int, d: int)
    requires
        p >= 0,
        d >= 1,
    ensures
        0 <= (p + d - 1) / d <= p,
{
    let m = p + d - 1;
    vstd::arithmetic::div_mod::lemma_fundamental_div_mod(m, d);
    vstd::arithmetic::div_mod::lemma_mod_division_less_than_divisor(m, d);
    vstd::arithmetic::div_mod::lemma_div_pos_is_pos(m, d);
    let q = m / d;
    if q > p {
        assert(d * q >= d * (p + 1)) by (nonlinear_arith)
            requires
                d >= 1,
                q >= p + 1,
        ;
        assert(d * (p + 1) >= p + d) by (nonlinear_arith)
            requires
                d >= 1,
                p >= 0,
        ;
        assert(false);
    }
}

/// Double-width quotient rounded away from zero, for a small positive
/// divisor and a bounded dividend.
pub fn div_away128(p: i128, d: i128) -> (q: i128)
    requires
        0 < d <= 0x1_0000_0000_0000,
        -0x4000_0000_0000_0000_0000_0000_0000 <= p <= 0x4000_0000_0000_0000_0000_0000_0000,
    ensures
        q as int == div_away(p as int, d as int),
        p >= 0 ==> 0 <= q <= p,
        p < 0 ==> p <= q <= 0,
{
    if p >= 0 {
        proof {
            lemma_div_away_bound(p as int, d as int);
        }
        let m: u128 = (p as u128) + (d as u128) - 1;
        (m / (d as u128)) as i128
    } else {
        proof {
            lemma_div_away_bound(-(p as int), d as int);
        }
        let m: u128 = ((-p) as u128) + (d as u128) - 1;
        -((m / (d as u128)) as i128)
    }
}

/// Saturating fixed-point addition.
pub fn fx_add(a: i64, b: i64) -> (r: i64)
    ensures
        r as int == fx_add_s(a as int, b as int),
{
    clamp128((a as i128) + (b as i128))
}

/// Saturating fixed-point subtraction.
pub fn fx_sub(a: i64, b: i64) -> (r: i64)
    ensures
        r as int == fx_sub_s(a as int, b as int),
{
    clamp128((a as i128) - (b as i128))
}

/// Saturating fixed-point multiplication.
pub fn fx_mul(a: i64, b: i64) -> (r: i64)
    ensures
        r as int == fx_mul_s(a as int, b as int),
{
    proof {
        lemma_i64_product_bounded(a as int, b as int);
    }
    let p: i128 = (a as i128) * (b as i128);
    clamp128(div_trunc128(p, FX_ONE as i128))
}

/// The product of two `i64` values stays strictly inside the `i128` range.
proof fn lemma_i64_product_bounded(a: int, b: int)
    by (nonlinear_arith)
    requires
        -0x8000_0000_0000_0000 <= a <= 0x7fff_ffff_ffff_ffff,
        -0x8000_0000_0000_0000 <= b <= 0x7fff_ffff_ffff_ffff,
    ensures
        -0x4000_0000_0000_0000_0000_0000_0000_0000 <= a * b,
        a * b <= 0x4000_0000_0000_0000_0000_0000_0000_0000,
{
}

/// Saturating fixed-point division; a non-positive divisor yields zero.
pub fn fx_div(a: i64, b: i64) -> (r: i64)
    ensures
        r as int == fx_div_s(a as int, b as int),
{
    if b <= 0 {
        0
    } else {
        proof {
            lemma_i64_product_bounded(a as int, FX_ONE as int);
        }
        let num: i128 = (a as i128) * (FX_ONE as i128);
        clamp128(div_trunc128(num, b as i128))
    }
}

/// Saturating product of a plain integer and a fixed-point value.
pub fn fx_scale(k: i64, a: i64) -> (r: i64)
    ensures
        r as int == fx_scale_s(k as int, a as int),
{
    proof {
        lemma_i64_product_bounded(k as int, a as int);
    }
    let p: i128 = (k as i128) * (a as i128);
    clamp128(p)
}

/// Integer square root of `n`, rounded down.
pub fn isqrt(n: u128) -> (r: u64)
    ensures
        is_sqrt_floor(n as int, r as int),
        r as int == sqrt_floor(n as int),
{
    let mut lo: u128 = 0;
    let mut hi: u128 = 0x1_0000_0000_0000_0000;
    while hi - lo > 1
        invariant
            0 <= lo < hi <= 0x1_0000_0000_0000_0000,
            lo * lo <= n,
            n < hi * hi,
        decreases hi - lo,
    {
        let mid: u128 = lo + (hi - lo) / 2;
        assert(mid * mid <= 0xffff_ffff_ffff_ffff * 0xffff_ffff_ffff_ffff) by (nonlinear_arith)
            requires
                0 <= mid <= 0xffff_ffff_ffff_ffff,
        ;
        let sq: u128 = mid * mid;
        if sq <= n {
            lo = mid;
        } else {
            hi = mid;
        }
    }
    assert(is_sqrt_floor(n as int, lo as int));
    proof {
        lemma_sqrt_floor_unique(n as int, lo as int);
    }
    lo as u64
}

} // verus!
