//! Scaled-integer (fixed-point) numeric primitives.
//!
//! A real number `x` is represented by the signed 64-bit integer closest to
//! `x * SCALE`, where `SCALE = 2^16` is the single process-wide scale factor.
//! Multiplication widens to 128 bits before shifting back down, so no
//! precision is lost before the final rounding step.

use vstd::prelude::*;
use vstd::arithmetic::div_mod::lemma_fundamental_div_mod;
use vstd::arithmetic::div_mod::lemma_fundamental_div_mod_converse;

verus! {

/// The fixed scale factor: 2^16.
pub const SCALE: i64 = 65536;

/// True when the mathematical integer `x` is representable as an `i64`.
pub open spec fn fits_i64(x: int) -> bool {
    i64::MIN <= x <= i64::MAX
}

/// The scaled product of two scaled values: the exact wide product,
/// floor-divided by the scale factor.
pub open spec fn fx_mul(a: int, b: int) -> int {
    (a * b) / (SCALE as int)
}

/// `|a| * |b| == |a * b|`.
proof fn lemma_abs_mul(a: int, b: int)
    by (nonlinear_arith)
    ensures
        vstd::math::abs(a) * vstd::math::abs(b) == vstd::math::abs(a * b),
{
}

/// The sign of a product follows the signs of its factors.
proof fn lemma_mul_sign(a: int, b: int)
    by (nonlinear_arith)
    ensures
        a >= 0 && b >= 0 ==> a * b >= 0,
        a <= 0 && b <= 0 ==> a * b >= 0,
        a >= 0 && b <= 0 ==> a * b <= 0,
        a <= 0 && b >= 0 ==> a * b <= 0,
{
}

/// Floor division of `-p` by a positive divisor, in terms of `p`'s quotient
/// and remainder.
pub proof fn lemma_neg_div(p: int, d: int)
    requires
        p >= 0,
        d > 0,
    ensures
        p % d == 0 ==> (-p) / d == -(p / d),
        p % d != 0 ==> (-p) / d == -(p / d) - 1,
{
    lemma_fundamental_div_mod(p, d);
    let q = p / d;
    let r = p % d;
    if r == 0 {
        assert((-p) == (-q) * d + 0) by (nonlinear_arith)
            requires
                p == d * q + r,
                r == 0,
        ;
        lemma_fundamental_div_mod_converse(-p, d, -q, 0);
    } else {
        assert((-p) == (-q - 1) * d + (d - r)) by (nonlinear_arith)
            requires
                p == d * q + r,
        ;
        lemma_fundamental_div_mod_converse(-p, d, -q - 1, d - r);
    }
}

/// Fixed-point multiplication carried out entirely in the widened 128-bit
/// domain, where the scaled product always fits.  Callers that need an
/// `i64` check the range of this result.
pub fn fixed_mul_wide(a: i64, b: i64) -> (r: i128)
    ensures
        r == fx_mul(a as int, b as int),
{
    let neg: bool = (a < 0) != (b < 0);
    let am: u128 = if a >= 0 { a as u128 } else { (-(a as i128)) as u128 };
    let bm: u128 = if b >= 0 { b as u128 } else { (-(b as i128)) as u128 };
    proof {
        assert(am as int == vstd::math::abs(a as int));
        assert(bm as int == vstd::math::abs(b as int));
        lemma_abs_mul(a as int, b as int);
        assert(am as int * bm as int <= 0x8000_0000_0000_0000 * 0x8000_0000_0000_0000)
            by (nonlinear_arith)
            requires
                0 <= am as int <= 0x8000_0000_0000_0000,
                0 <= bm as int <= 0x8000_0000_0000_0000,
        ;
    }
    let p: u128 = am * bm;
    proof {
        assert(p as int == vstd::math::abs(a as int * b as int));
        lemma_mul_sign(a as int, b as int);
    }
    let q: u128 = p / (SCALE as u128);
    let rem: u128 = p % (SCALE as u128);
    if !neg {
        proof {
            assert(a as int * b as int == p as int);
            assert(q as int == fx_mul(a as int, b as int));
        }
        q as i128
    } else {
        proof {
            assert(a as int * b as int == -(p as int));
            lemma_neg_div(p as int, SCALE as int);
        }
        if rem > 0 {
            proof {
                assert(fx_mul(a as int, b as int) == -(q as int) - 1);
            }
            -((q + 1) as i128)
        } else {
            proof {
                assert(fx_mul(a as int, b as int) == -(q as int));
            }
            -(q as i128)
        }
    }
}

/// Fixed-point multiplication: the exact product is computed in a widened
/// integer domain before shifting back down by the scale's bit width;
/// shifting first would lose precision.
pub fn fixed_mul(a: i64, b: i64) -> (r: i64)
    requires
        fits_i64(fx_mul(a as int, b as int)),
    ensures
        r == fx_mul(a as int, b as int),
{
    fixed_mul_wide(a, b) as i64
}

/// The integer nearest to the fraction `n / d` (for `d > 0`), rounding
/// ties away from zero.
pub open spec fn round_rat(n: int, d: int) -> int {
    if n >= 0 {
        (2 * n + d) / (2 * d)
    } else {
        -((2 * (-n) + d) / (2 * d))
    }
}

/// The scaled representation of the real number `num / den`: multiply by
/// the scale factor, then round to the nearest integer, ties away from zero.
pub open spec fn to_scaled_spec(num: int, den: int) -> int {
    round_rat(num * (SCALE as int), den)
}

/// Rounding to nearest, expressed through the quotient and remainder of
/// the magnitude: round up exactly when twice the remainder reaches the
/// divisor.
proof fn lemma_round_by_rem(n: int, d: int)
    requires
        n >= 0,
        d > 0,
    ensures
        2 * (n % d) < d ==> (2 * n + d) / (2 * d) == n / d,
        2 * (n % d) >= d ==> (2 * n + d) / (2 * d) == n / d + 1,
{
    lemma_fundamental_div_mod(n, d);
    let q = n / d;
    let r = n % d;
    if 2 * r < d {
        assert(2 * n + d == q * (2 * d) + (2 * r + d)) by (nonlinear_arith)
            requires
                n == d * q + r,
        ;
        lemma_fundamental_div_mod_converse(2 * n + d, 2 * d, q, 2 * r + d);
    } else {
        assert(2 * n + d == (q + 1) * (2 * d) + (2 * r - d)) by (nonlinear_arith)
            requires
                n == d * q + r,
        ;
        lemma_fundamental_div_mod_converse(2 * n + d, 2 * d, q + 1, 2 * r - d);
    }
}

/// Converts the real number `num / den` (with `den > 0`) into fixed-point
/// representation: the single reference conversion used everywhere a real
/// value enters fixed-point space.
pub fn to_scaled(num: i64, den: i64) -> (r: i64)
    requires
        den > 0,
        fits_i64(to_scaled_spec(num as int, den as int)),
    ensures
        r == to_scaled_spec(num as int, den as int),
{
    let nm: u128 = if num >= 0 { num as u128 } else { (-(num as i128)) as u128 };
    proof {
        assert(nm * (SCALE as u128) <= 0x8000_0000_0000_0000 * 0x10000) by (nonlinear_arith)
            requires
                0 <= nm <= 0x8000_0000_0000_0000u128,
        ;
    }
    let nscaled: u128 = nm * (SCALE as u128);
    let d: u128 = den as u128;
    let q: u128 = nscaled / d;
    let rem: u128 = nscaled % d;
    proof {
        lemma_round_by_rem(nscaled as int, d as int);
    }
    let mag: u128 = if 2 * rem >= d { q + 1 } else { q };
    if num >= 0 {
        proof {
            assert(mag as int == to_scaled_spec(num as int, den as int));
        }
        mag as i64
    } else {
        proof {
            assert(nm as int == -(num as int));
            assert(num as int * (SCALE as int) == -(nscaled as int)) by (nonlinear_arith)
                requires
                    nm as int == -(num as int),
                    nscaled as int == nm as int * (SCALE as int),
            ;
            assert(-(mag as int) == to_scaled_spec(num as int, den as int));
        }
        (-(mag as i128)) as i64
    }
}

/// Converting a real to fixed-point and back loses at most half a scaled
/// unit: `|toScaled(x) * den - x_num * SCALE| <= den / 2` for `x = num/den`,
/// so dividing through by `den * SCALE`, the real value `toScaled(x) / SCALE`
/// differs from `x` by at most `1 / (2 * SCALE)`, within the promised
/// `1 / SCALE` bound.
pub proof fn lemma_to_scaled_round_trip(num: int, den: int)
    requires
        den > 0,
    ensures
        2 * vstd::math::abs(to_scaled_spec(num, den) * den - num * (SCALE as int)) <= den,
{
    let n = num * (SCALE as int);
    let nm = vstd::math::abs(n) as int;
    let s = to_scaled_spec(num, den);
    lemma_fundamental_div_mod(2 * nm + den, 2 * den);
    let q = (2 * nm + den) / (2 * den);
    let m = (2 * nm + den) % (2 * den);
    assert(2 * (q * den - nm) == den - m) by (nonlinear_arith)
        requires
            2 * nm + den == (2 * den) * q + m,
    ;
    if n >= 0 {
        assert(s == q && nm == n);
    } else {
        assert(s == -q && nm == -n);
        assert(s * den - n == -(q * den - nm)) by (nonlinear_arith)
            requires
                s == -q,
                nm == -n,
        ;
    }
}

/// Saturating clamp of a scaled value to the inclusive range `[lo, hi]`.
pub fn clamp_fx(x: i64, lo: i64, hi: i64) -> (r: i64)
    ensures
        r == if x < lo { lo } else if x > hi { hi } else { x },
{
    if x < lo { lo } else if x > hi { hi } else { x }
}

} // verus!
