//! Fixed-point model math primitives.
//!
//! Each primitive mirrors one model kind's arithmetic, carried out
//! entirely on scaled integers: a dot-product accumulator for
//! multiple/logistic regression, Horner evaluation for polynomial
//! regression, and a clamped odd-symmetric cubic approximation of the
//! logistic sigmoid.

use vstd::prelude::*;
use vstd::arithmetic::div_mod::lemma_fundamental_div_mod;
use vstd::arithmetic::power::pow;
use crate::fixed::SCALE;
use crate::fixed::fits_i64;
use crate::fixed::fx_mul;
use crate::fixed::fixed_mul;
use crate::fixed::clamp_fx;

verus! {

/// Scaled constant for the sigmoid approximation coefficient 0.1963.
pub const A1_FX: i64 = 12865;

/// Scaled constant for the sigmoid approximation coefficient 0.004375.
pub const A3_FX: i64 = 287;

/// Scaled constant for one half.
pub const HALF_FX: i64 = 32768;

/// The fixed-point dot product of the first `k` coordinate pairs:
/// each term is a scaled multiplication, summed in index-ascending order.
pub open spec fn fx_dot(xs: Seq<i64>, ws: Seq<i64>, k: int) -> int
    decreases k,
{
    if k <= 0 {
        0
    } else {
        fx_dot(xs, ws, k - 1) + fx_mul(xs[k - 1] as int, ws[k - 1] as int)
    }
}

/// Every term of the dot product is representable as an `i64`.
pub open spec fn dot_terms_fit(xs: Seq<i64>, ws: Seq<i64>) -> bool {
    forall|k: int| 0 <= k < xs.len() ==> fits_i64(fx_mul(xs[k] as int, ws[k] as int))
}

/// Every running sum of the dot product is representable as an `i64`.
pub open spec fn dot_partials_fit(xs: Seq<i64>, ws: Seq<i64>) -> bool {
    forall|k: int| 0 <= k <= xs.len() ==> fits_i64(fx_dot(xs, ws, k))
}

/// Dot product plus bias over scaled values, accumulated in
/// index-ascending order so the result is reproducible bit for bit.
pub fn multiple_regression_fixed_accumulate(
    features_fx: &[i64],
    weights_fx: &[i64],
    b_fx: i64,
) -> (r: i64)
    requires
        features_fx@.len() == weights_fx@.len(),
        dot_terms_fit(features_fx@, weights_fx@),
        dot_partials_fit(features_fx@, weights_fx@),
        fits_i64(fx_dot(features_fx@, weights_fx@, features_fx@.len() as int) + b_fx),
    ensures
        r == fx_dot(features_fx@, weights_fx@, features_fx@.len() as int) + b_fx,
{
    let n: usize = features_fx.len();
    let mut acc: i64 = 0;
    for i in 0..n
        invariant
            n == features_fx@.len(),
            n == weights_fx@.len(),
            dot_terms_fit(features_fx@, weights_fx@),
            dot_partials_fit(features_fx@, weights_fx@),
            fits_i64(fx_dot(features_fx@, weights_fx@, n as int) + b_fx),
            acc == fx_dot(features_fx@, weights_fx@, i as int),
    {
        proof {
            assert(fits_i64(fx_dot(features_fx@, weights_fx@, i + 1)));
            assert(fits_i64(fx_mul(features_fx@[i as int] as int, weights_fx@[i as int] as int)));
        }
        acc = acc + fixed_mul(features_fx[i], weights_fx[i]);
    }
    acc + b_fx
}

/// The fixed-point Horner accumulator after consuming the `k`
/// highest-degree coefficients (the coefficient sequence is ordered
/// lowest degree first and consumed from the back).
pub open spec fn fx_horner(coeffs: Seq<i64>, x: int, k: int) -> int
    decreases k,
{
    if k <= 0 {
        0
    } else {
        fx_mul(fx_horner(coeffs, x, k - 1), x) + coeffs[coeffs.len() - k] as int
    }
}

/// Every Horner step stays representable: both the scaled product and
/// the subsequent coefficient addition fit in an `i64`.
pub open spec fn horner_steps_fit(coeffs: Seq<i64>, x: int) -> bool {
    forall|k: int|
        0 <= k < coeffs.len() ==> fits_i64(#[trigger] fx_mul(fx_horner(coeffs, x, k), x))
            && fits_i64(fx_horner(coeffs, x, k + 1))
}

/// Horner evaluation over the coefficient vector (lowest degree first):
/// the accumulator starts at zero and consumes coefficients from the
/// highest degree down.
pub fn polynomial_fixed_horner(x_fx: i64, coeffs_fx: &[i64]) -> (r: i64)
    requires
        horner_steps_fit(coeffs_fx@, x_fx as int),
    ensures
        r == fx_horner(coeffs_fx@, x_fx as int, coeffs_fx@.len() as int),
{
    let n: usize = coeffs_fx.len();
    let mut acc: i64 = 0;
    for k in 0..n
        invariant
            n == coeffs_fx@.len(),
            horner_steps_fit(coeffs_fx@, x_fx as int),
            acc == fx_horner(coeffs_fx@, x_fx as int, k as int),
    {
        proof {
            assert(fits_i64(fx_mul(fx_horner(coeffs_fx@, x_fx as int, k as int), x_fx as int))
                && fits_i64(fx_horner(coeffs_fx@, x_fx as int, k + 1)));
        }
        acc = fixed_mul(acc, x_fx) + coeffs_fx[n - 1 - k];
    }
    acc
}

/// The clamped cubic sigmoid approximation on a scaled argument:
/// `half + a1 * z - a3 * z^3`, clamped to `[0, SCALE]`.
pub open spec fn sigmoid_fx_spec(z: int) -> int {
    let z2 = fx_mul(z, z);
    let z3 = fx_mul(z2, z);
    let t1 = fx_mul(A1_FX as int, z);
    let t3 = fx_mul(A3_FX as int, z3);
    let y = HALF_FX + t1 - t3;
    if y < 0 {
        0
    } else if y > SCALE {
        SCALE as int
    } else {
        y
    }
}

/// The cube of the argument stays representable through both scaled
/// multiplications.
pub open spec fn sigmoid_arg_fits(z: int) -> bool {
    fits_i64(fx_mul(z, z)) && fits_i64(fx_mul(fx_mul(z, z), z))
}

/// Division by the scale factor shrinks a bounded magnitude: a helper
/// for the range reasoning inside the sigmoid.
proof fn lemma_fx_div_bound(w: int, m: int)
    requires
        0 <= m,
        -m <= w <= m,
    ensures
        -(m / (SCALE as int)) - 1 <= w / (SCALE as int) <= m / (SCALE as int),
{
    vstd::arithmetic::div_mod::lemma_div_is_ordered(w, m, SCALE as int);
    vstd::arithmetic::div_mod::lemma_div_is_ordered(-m, w, SCALE as int);
    crate::fixed::lemma_neg_div(m, SCALE as int);
}

/// The exact dot product of the first `k` coordinate pairs of scaled
/// values, without intermediate rounding.  Since every factor carries
/// one scale factor, this value is the real dot product times the scale
/// factor squared.
pub open spec fn exact_dot(xs: Seq<i64>, ws: Seq<i64>, k: int) -> int
    decreases k,
{
    if k <= 0 {
        0
    } else {
        exact_dot(xs, ws, k - 1) + xs[k - 1] as int * (ws[k - 1] as int)
    }
}

/// The fixed-point linear prediction differs from the exact one by less
/// than one rounding step: `w*x + SCALE*b` is the exact prediction times
/// the scale factor squared, and the scaled fixed-point prediction
/// `fx_mul(w, x) + b` sits within `SCALE` of it (after multiplying
/// through), i.e. the real prediction error is below `1 / SCALE`.
pub proof fn lemma_linear_fixed_error(w: int, x: int, b: int)
    ensures
        0 <= w * x + (SCALE as int) * b - (SCALE as int) * (fx_mul(w, x) + b) < (SCALE as int),
{
    lemma_fundamental_div_mod(w * x, SCALE as int);
}

/// Each rounded term of the fixed-point dot product loses at most one
/// scaled unit against the exact product, so after `k` terms the scaled
/// deficit is between 0 and `k * SCALE`: the real dot-product error is
/// at most `k / SCALE`.
pub proof fn lemma_dot_fixed_error(xs: Seq<i64>, ws: Seq<i64>, k: int)
    requires
        0 <= k <= xs.len(),
        xs.len() == ws.len(),
    ensures
        0 <= exact_dot(xs, ws, k) - (SCALE as int) * fx_dot(xs, ws, k) <= k * (SCALE as int),
    decreases k,
{
    if k > 0 {
        lemma_dot_fixed_error(xs, ws, k - 1);
        lemma_fundamental_div_mod(xs[k - 1] as int * (ws[k - 1] as int), SCALE as int);
    }
}

/// The exact Horner value after consuming the `k` highest-degree
/// coefficients, without intermediate rounding, normalized so that it
/// stays an integer: this is the real Horner accumulator times the
/// scale factor to the power `k`.
pub open spec fn exact_horner(coeffs: Seq<i64>, x: int, k: int) -> int
    decreases k,
{
    if k <= 0 {
        0
    } else {
        exact_horner(coeffs, x, k - 1) * x + coeffs[coeffs.len() - k] as int * pow(
            SCALE as int,
            (k - 1) as nat,
        )
    }
}

/// A product of two bounded factors is bounded by the product of the
/// bounds.
proof fn lemma_mul_bounded(x: int, d: int, mx: int, md: int)
    by (nonlinear_arith)
    requires
        0 <= mx,
        0 <= md,
        -mx <= x <= mx,
        -md <= d <= md,
    ensures
        -(mx * md) <= x * d <= mx * md,
{
}

/// Each Horner step multiplies the accumulated error by at most one
/// (since `|x| <= SCALE` means the real point lies in `[-1, 1]`) and
/// adds at most one rounding step, so after `k` steps the normalized
/// error is at most `k` scaled units: the real prediction error is at
/// most `k / SCALE`.
#[verifier::rlimit(50)]
pub proof fn lemma_horner_fixed_error(coeffs: Seq<i64>, x: int, k: int)
    requires
        0 <= k <= coeffs.len(),
        -(SCALE as int) <= x <= (SCALE as int),
    ensures
        -(k * pow(SCALE as int, (k - 1) as nat)) <= fx_horner(coeffs, x, k) * pow(
            SCALE as int,
            (k - 1) as nat,
        ) - exact_horner(coeffs, x, k) <= k * pow(SCALE as int, (k - 1) as nat),
    decreases k,
{
    let s = SCALE as int;
    if k == 1 {
        assert(fx_horner(coeffs, x, 0) == 0);
        assert(fx_mul(0, x) == 0);
        assert(pow(s, 0) == 1) by {
            vstd::arithmetic::power::lemma_pow0(s);
        }
        let c = coeffs[coeffs.len() - 1] as int;
        assert(fx_horner(coeffs, x, 1) == c);
        assert(exact_horner(coeffs, x, 0) == 0);
        assert(exact_horner(coeffs, x, 1) == 0 * x + c * pow(s, 0nat));
        assert(c * pow(s, 0nat) == c) by (nonlinear_arith)
            requires
                pow(s, 0nat) == 1,
        ;
        assert(exact_horner(coeffs, x, 1) == c);
        assert(fx_horner(coeffs, x, 1) * pow(s, 0nat) - exact_horner(coeffs, x, 1) == 0);
    } else if k > 1 {
        lemma_horner_fixed_error(coeffs, x, k - 1);
        let a = fx_horner(coeffs, x, k - 1);
        let nexact = exact_horner(coeffs, x, k - 1);
        let c = coeffs[coeffs.len() - k] as int;
        let p2 = pow(s, (k - 2) as nat);
        let p1 = pow(s, (k - 1) as nat);
        let d_prev = a * p2 - nexact;
        let q = fx_mul(a, x);
        let r = (a * x) % s;
        lemma_fundamental_div_mod(a * x, s);
        assert(p1 == s * p2) by {
            vstd::arithmetic::power::lemma_pow1(s);
            vstd::arithmetic::power::lemma_pow_adds(s, 1nat, (k - 2) as nat);
        }
        assert(pow(s, (k - 2) as nat) > 0) by {
            vstd::arithmetic::power::lemma_pow_positive(s, (k - 2) as nat);
        }
        // the new normalized gap is x * (previous gap) - r * p2
        assert(q * p1 - (nexact * x) == x * d_prev - r * p2) by (nonlinear_arith)
            requires
                a * x == s * q + r,
                p1 == s * p2,
                d_prev == a * p2 - nexact,
        ;
        lemma_mul_bounded(x, d_prev, s, (k - 1) * p2);
        assert(0 <= r * p2 <= s * p2) by (nonlinear_arith)
            requires
                0 <= r < s,
                p2 > 0,
        ;
        assert(s * ((k - 1) * p2) + s * p2 == k * p1) by (nonlinear_arith)
            requires
                p1 == s * p2,
        ;
        assert(fx_horner(coeffs, x, k) * p1 - exact_horner(coeffs, x, k) == q * p1 - nexact * x)
            by (nonlinear_arith)
            requires
                fx_horner(coeffs, x, k) == q + c,
                exact_horner(coeffs, x, k) == nexact * x + c * p1,
        ;
        assert(-(k * p1) <= fx_horner(coeffs, x, k) * p1 - exact_horner(coeffs, x, k) <= k * p1);
        assert(k * p1 == k * pow(s, (k - 1) as nat));
    }
}

/// The exact (unrounded) value of the cubic sigmoid polynomial on the
/// scaled argument `z`, before clamping, normalized by the scale factor
/// cubed so that it stays an integer: the real polynomial value is this
/// divided by `SCALE^4`.
pub open spec fn exact_sigmoid_core(z: int) -> int {
    let s = SCALE as int;
    (HALF_FX as int) * (s * s * s) + (A1_FX as int) * z * (s * s) - (A3_FX as int) * (z * z * z)
}

/// A product of a factor bounded by the scale and a factor bounded by
/// the scale is bounded by the scale squared.
proof fn lemma_scale_product_bound(a: int, b: int)
    by (nonlinear_arith)
    requires
        -(SCALE as int) <= a <= (SCALE as int),
        0 <= b < (SCALE as int),
    ensures
        -((SCALE as int) * (SCALE as int)) <= a * b <= (SCALE as int) * (SCALE as int),
{
}

/// The fixed-point sigmoid pipeline loses at most three scaled units
/// against the exact clamped cubic (for arguments whose real value lies
/// in `[-1, 1]`): each of the four rounding steps costs at most one
/// scaled unit, and clamping both sides to the probability range can
/// only shrink the gap.  Dividing through by `SCALE^4`, the real result
/// differs from the exact clamped polynomial by at most `3 / SCALE`.
#[verifier::rlimit(50)]
pub proof fn lemma_sigmoid_fixed_error(z: int)
    requires
        -(SCALE as int) <= z <= (SCALE as int),
    ensures
        ({
            let s = SCALE as int;
            let s3 = s * s * s;
            let e = exact_sigmoid_core(z);
            let ec = if e < 0 {
                0
            } else if e > s * s3 {
                s * s3
            } else {
                e
            };
            -(3 * s3) <= s3 * sigmoid_fx_spec(z) - ec <= 3 * s3
        }),
{
    let s = SCALE as int;
    let s2 = s * s;
    let s3 = s * s * s;
    let z2 = fx_mul(z, z);
    let z3 = fx_mul(z2, z);
    let t1 = fx_mul(A1_FX as int, z);
    let t3 = fx_mul(A3_FX as int, z3);
    let y = HALF_FX + t1 - t3;

    lemma_fundamental_div_mod(z * z, s);
    let r2 = (z * z) % s;
    assert(z * z == s * z2 + r2);

    lemma_fundamental_div_mod(z2 * z, s);
    let r3 = (z2 * z) % s;
    assert(z2 * z == s * z3 + r3);

    lemma_fundamental_div_mod((A1_FX as int) * z, s);
    let r1 = ((A1_FX as int) * z) % s;
    assert((A1_FX as int) * z == s * t1 + r1);

    lemma_fundamental_div_mod((A3_FX as int) * z3, s);
    let r4 = ((A3_FX as int) * z3) % s;
    assert((A3_FX as int) * z3 == s * t3 + r4);

    // the scaled cube misses the exact cube by the two propagated remainders
    let m = z * r2;
    assert(s2 * z3 - z * z * z == -m - s * r3) by (nonlinear_arith)
        requires
            z * z == s * z2 + r2,
            z2 * z == s * z3 + r3,
            m == z * r2,
            s2 == s * s,
    ;
    lemma_scale_product_bound(z, r2);

    // expand the two scaled terms of the polynomial against their targets
    assert(s3 * t3 - (A3_FX as int) * (z * z * z) == (A3_FX as int) * (-m - s * r3) - s2 * r4)
        by (nonlinear_arith)
        requires
            (A3_FX as int) * z3 == s * t3 + r4,
            s2 * z3 - z * z * z == -m - s * r3,
            s2 == s * s,
            s3 == s * s * s,
    ;
    assert(s3 * t1 - (A1_FX as int) * z * s2 == -(s2 * r1)) by (nonlinear_arith)
        requires
            (A1_FX as int) * z == s * t1 + r1,
            s2 == s * s,
            s3 == s * s * s,
    ;
    assert(s3 * y - exact_sigmoid_core(z) == -(s2 * r1) + (A3_FX as int) * m + (A3_FX as int) * (s
        * r3) + s2 * r4) by (nonlinear_arith)
        requires
            y == HALF_FX + t1 - t3,
            s3 * t1 - (A1_FX as int) * z * s2 == -(s2 * r1),
            s3 * t3 - (A3_FX as int) * (z * z * z) == (A3_FX as int) * (-m - s * r3) - s2 * r4,
            exact_sigmoid_core(z) == (HALF_FX as int) * s3 + (A1_FX as int) * z * s2 - (
            A3_FX as int) * (z * z * z),
            s3 == s * s * s,
    ;
    assert(-(3 * s3) <= s3 * y - exact_sigmoid_core(z) <= 3 * s3);

    // clamping both sides to the probability range keeps them close
    let e = exact_sigmoid_core(z);
    let ec = if e < 0 {
        0
    } else if e > s * s3 {
        s * s3
    } else {
        e
    };
    if y < 0 {
        assert(sigmoid_fx_spec(z) == 0);
        assert(-(3 * s3) <= s3 * 0 - ec <= 3 * s3) by (nonlinear_arith)
            requires
                s == 65536,
                s3 == s * s * s,
                y <= -1,
                -(3 * s3) <= s3 * y - e <= 3 * s3,
                ec == (if e < 0 {
                    0int
                } else if e > s * s3 {
                    s * s3
                } else {
                    e
                }),
        ;
    } else if y > SCALE {
        assert(sigmoid_fx_spec(z) == s);
        assert(-(3 * s3) <= s3 * s - ec <= 3 * s3) by (nonlinear_arith)
            requires
                s == 65536,
                s3 == s * s * s,
                y >= s + 1,
                -(3 * s3) <= s3 * y - e <= 3 * s3,
                ec == (if e < 0 {
                    0int
                } else if e > s * s3 {
                    s * s3
                } else {
                    e
                }),
        ;
    } else {
        assert(sigmoid_fx_spec(z) == y);
        assert(-(3 * s3) <= s3 * y - ec <= 3 * s3) by (nonlinear_arith)
            requires
                s == 65536,
                s3 == s * s * s,
                0 <= y <= s,
                -(3 * s3) <= s3 * y - e <= 3 * s3,
                ec == (if e < 0 {
                    0int
                } else if e > s * s3 {
                    s * s3
                } else {
                    e
                }),
        ;
    }
}

/// The exact cubic sigmoid polynomial on a doubly-scaled argument (the
/// exact dot product plus scaled bias carries two scale factors),
/// normalized by `SCALE^6` so that it stays an integer: the real
/// polynomial value is this divided by `SCALE^7`.
pub open spec fn exact_sigmoid_core2(zz: int) -> int {
    (HALF_FX as int) * 0x1000000000000000000000000 + (A1_FX as int) * 0x10000000000000000 * zz - (
    A3_FX as int) * (zz * zz * zz)
}

/// On a singly-scaled argument, the doubly-scaled polynomial is the
/// singly-scaled one, renormalized.
proof fn lemma_core2_of_scaled(z: int)
    by (nonlinear_arith)
    ensures
        exact_sigmoid_core2((SCALE as int) * z) == 0x1000000000000 * exact_sigmoid_core(z),
{
}

/// The doubly-scaled cubic is Lipschitz on arguments whose real value
/// lies in `[-1, 1]`.
proof fn lemma_core2_lipschitz(u: int, w: int)
    requires
        -0x100000000 <= u <= 0x100000000,
        -0x100000000 <= w <= 0x100000000,
    ensures
        ({
            let d = if u >= w {
                u - w
            } else {
                w - u
            };
            -(((A1_FX + 3 * A3_FX) as int) * 0x10000000000000000 * d) <= exact_sigmoid_core2(u)
                - exact_sigmoid_core2(w) <= ((A1_FX + 3 * A3_FX) as int) * 0x10000000000000000 * d
        }),
{
    let d = if u >= w {
        u - w
    } else {
        w - u
    };
    let q = u * u + u * w + w * w;
    assert(0 <= q <= 3 * 0x10000000000000000) by (nonlinear_arith)
        requires
            -0x100000000 <= u <= 0x100000000,
            -0x100000000 <= w <= 0x100000000,
            q == u * u + u * w + w * w,
    ;
    assert(u * u * u - w * w * w == (u - w) * q) by (nonlinear_arith)
        requires
            q == u * u + u * w + w * w,
    ;
    assert(exact_sigmoid_core2(u) - exact_sigmoid_core2(w) == (A1_FX as int) * 0x10000000000000000
        * (u - w) - (A3_FX as int) * ((u - w) * q)) by (nonlinear_arith)
        requires
            u * u * u - w * w * w == (u - w) * q,
            exact_sigmoid_core2(u) == (HALF_FX as int) * 0x1000000000000000000000000 + (
            A1_FX as int) * 0x10000000000000000 * u - (A3_FX as int) * (u * u * u),
            exact_sigmoid_core2(w) == (HALF_FX as int) * 0x1000000000000000000000000 + (
            A1_FX as int) * 0x10000000000000000 * w - (A3_FX as int) * (w * w * w),
    ;
    assert(-(((A1_FX + 3 * A3_FX) as int) * 0x10000000000000000 * d) <= (A1_FX as int)
        * 0x10000000000000000 * (u - w) - (A3_FX as int) * ((u - w) * q) <= ((A1_FX + 3
        * A3_FX) as int) * 0x10000000000000000 * d) by (nonlinear_arith)
        requires
            0 <= q <= 3 * 0x10000000000000000,
            d == (if u >= w {
                u - w
            } else {
                w - u
            }),
    ;
}

/// Clamping to a common range never increases a gap.
proof fn lemma_clamp_contracts(a: int, b: int, lo: int, hi: int)
    requires
        lo <= hi,
    ensures
        ({
            let ca = if a < lo {
                lo
            } else if a > hi {
                hi
            } else {
                a
            };
            let cb = if b < lo {
                lo
            } else if b > hi {
                hi
            } else {
                b
            };
            let d = if a >= b {
                a - b
            } else {
                b - a
            };
            -d <= ca - cb <= d
        }),
{
}

/// The full fixed-point logistic error bound: for a model whose fixed
/// and exact sums both lie in the real interval `[-1, 1]`, the
/// fixed-point logistic prediction (normalized by `SCALE^6`) sits within
/// `3 * SCALE^6 + (A1 + 3*A3) * n * SCALE^5` of the exact clamped cubic
/// on the exact sum: dividing through, the real prediction error is at
/// most `(3 + 0.21 * n) / SCALE` for `n` features.
pub proof fn lemma_logistic_fixed_error(xs: Seq<i64>, ws: Seq<i64>, b: int)
    requires
        xs.len() == ws.len(),
        -(SCALE as int) <= fx_dot(xs, ws, xs.len() as int) + b <= (SCALE as int),
        -0x100000000 <= exact_dot(xs, ws, xs.len() as int) + (SCALE as int) * b <= 0x100000000,
    ensures
        ({
            let n = xs.len() as int;
            let z = fx_dot(xs, ws, n) + b;
            let zx = exact_dot(xs, ws, n) + (SCALE as int) * b;
            let f = exact_sigmoid_core2(zx);
            let fc = if f < 0 {
                0int
            } else if f > 0x10000000000000000000000000000 {
                0x10000000000000000000000000000int
            } else {
                f
            };
            let bound = 3 * 0x1000000000000000000000000 + ((A1_FX + 3 * A3_FX) as int)
                * 0x100000000000000000000 * n;
            -bound <= 0x1000000000000000000000000 * sigmoid_fx_spec(z) - fc <= bound
        }),
{
    let n = xs.len() as int;
    let s = SCALE as int;
    let z = fx_dot(xs, ws, n) + b;
    let zx = exact_dot(xs, ws, n) + s * b;

    // the fixed sum sits within n scaled units below the exact sum
    lemma_dot_fixed_error(xs, ws, n);
    assert(0 <= zx - s * z <= n * s);

    // the sigmoid pipeline loses at most three scaled units on the fixed sum
    lemma_sigmoid_fixed_error(z);
    let e = exact_sigmoid_core(z);
    let ec = if e < 0 {
        0int
    } else if e > s * (s * s * s) {
        s * (s * s * s)
    } else {
        e
    };
    assert(-(3 * 0x1000000000000) <= 0x1000000000000 * sigmoid_fx_spec(z) - ec <= 3
        * 0x1000000000000);

    // renormalize the fixed-sum polynomial to the doubly-scaled domain
    lemma_core2_of_scaled(z);
    let ee = exact_sigmoid_core2(s * z);
    assert(ee == 0x1000000000000 * e);
    let eec = if ee < 0 {
        0int
    } else if ee > 0x10000000000000000000000000000 {
        0x10000000000000000000000000000int
    } else {
        ee
    };
    assert(eec == 0x1000000000000 * ec);
    assert(-(3 * 0x1000000000000000000000000) <= 0x1000000000000000000000000 * sigmoid_fx_spec(z)
        - eec <= 3 * 0x1000000000000000000000000) by (nonlinear_arith)
        requires
            -(3 * 0x1000000000000) <= 0x1000000000000 * sigmoid_fx_spec(z) - ec <= 3
                * 0x1000000000000,
            eec == 0x1000000000000 * ec,
    ;

    // the two polynomial arguments are close, so the polynomials are too
    lemma_core2_lipschitz(s * z, zx);
    let f = exact_sigmoid_core2(zx);
    assert(-(((A1_FX + 3 * A3_FX) as int) * 0x10000000000000000 * (n * s)) <= ee - f <= ((A1_FX + 3
        * A3_FX) as int) * 0x10000000000000000 * (n * s)) by (nonlinear_arith)
        requires
            0 <= zx - s * z <= n * s,
            -(((A1_FX + 3 * A3_FX) as int) * 0x10000000000000000 * (zx - s * z)) <= ee - f <= ((
            A1_FX + 3 * A3_FX) as int) * 0x10000000000000000 * (zx - s * z),
    ;
    assert(((A1_FX + 3 * A3_FX) as int) * 0x10000000000000000 * (n * s) == ((A1_FX + 3
        * A3_FX) as int) * 0x100000000000000000000 * n) by (nonlinear_arith)
        requires
            s == 65536,
    ;

    // clamping both polynomials to the probability range keeps them close
    lemma_clamp_contracts(ee, f, 0, 0x10000000000000000000000000000);
    let fc = if f < 0 {
        0int
    } else if f > 0x10000000000000000000000000000 {
        0x10000000000000000000000000000int
    } else {
        f
    };
    assert(-(((A1_FX + 3 * A3_FX) as int) * 0x100000000000000000000 * n) <= eec - fc <= ((A1_FX + 3
        * A3_FX) as int) * 0x100000000000000000000 * n);
}

/// Cubic sigmoid approximation in the fixed domain, clamped to the
/// scaled probability range `[0, SCALE]`.
pub fn sigmoid_fixed_approx(z_fx: i64) -> (r: i64)
    requires
        sigmoid_arg_fits(z_fx as int),
    ensures
        r == sigmoid_fx_spec(z_fx as int),
        0 <= r <= SCALE,
{
    let z2 = fixed_mul(z_fx, z_fx);
    let z3 = fixed_mul(z2, z_fx);

    proof {
        assert(-0x8000_0000_0000_0000 * 12865 <= A1_FX as int * (z_fx as int)
            <= 0x8000_0000_0000_0000int * 12865) by (nonlinear_arith)
            requires
                -0x8000_0000_0000_0000 <= z_fx as int <= 0x8000_0000_0000_0000,
        ;
        lemma_fx_div_bound(A1_FX as int * (z_fx as int), 0x8000_0000_0000_0000int * 12865);
        assert(-0x8000_0000_0000_0000 * 287 <= A3_FX as int * (z3 as int)
            <= 0x8000_0000_0000_0000int * 287) by (nonlinear_arith)
            requires
                -0x8000_0000_0000_0000 <= z3 as int <= 0x8000_0000_0000_0000,
        ;
        lemma_fx_div_bound(A3_FX as int * (z3 as int), 0x8000_0000_0000_0000int * 287);
    }
    let term1 = fixed_mul(A1_FX, z_fx);
    let term3 = fixed_mul(A3_FX, z3);

    let y_fx = HALF_FX + term1 - term3;
    clamp_fx(y_fx, 0, SCALE)
}

} // verus!
