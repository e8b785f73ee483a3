//! Model dispatch: evaluates one of five model kinds against a feature
//! vector in the optimized (fixed-point) arithmetic mode.
//!
//! The model kinds form a closed set, dispatched by an exhaustive match.
//! Input defects (a weight count that does not fit the kind) and scaled
//! values that leave the 64-bit range are fatal errors; the evaluation of
//! a sample either produces exactly the scaled prediction of its kind's
//! formula or rejects the whole computation.

use vstd::prelude::*;
use crate::fixed::fits_i64;
use crate::fixed::fx_mul;
use crate::fixed::fixed_mul;
use crate::fixed::fixed_mul_wide;
use crate::models::fx_dot;
use crate::models::fx_horner;
use crate::models::dot_terms_fit;
use crate::models::dot_partials_fit;
use crate::models::horner_steps_fit;
use crate::models::sigmoid_arg_fits;
use crate::models::sigmoid_fx_spec;
use crate::models::multiple_regression_fixed_accumulate;
use crate::models::polynomial_fixed_horner;
use crate::models::sigmoid_fixed_approx;
use crate::tree::TreeError;
use crate::tree::TreeNode;
use crate::tree::Sample;
use crate::tree::max_id;
use crate::tree::spec_traverse;
use crate::tree::build_id_index;
use crate::tree::traverse_tree;
use crate::journal::Journal;
use crate::journal::PredictionRecord;

verus! {

/// The closed set of supported model kinds.
#[derive(Clone, Copy, Debug, PartialEq, Eq, Structural)]
pub enum ModelKind {
    Linear,
    Multiple,
    Polynomial,
    Logistic,
    Tree,
}

/// A fatal evaluation error: the whole evaluation aborts, no partial
/// output is produced.
#[derive(Clone, Copy, Debug, PartialEq, Eq, Structural)]
pub enum EvalError {
    /// The weight vector's length does not fit the model kind.
    WeightCountMismatch,
    /// The kind discriminant on the wire is not one of the five kinds.
    UnknownModelKind,
    /// An intermediate scaled value left the signed 64-bit range.
    ValueOutOfRange,
    /// A structural defect surfaced by the decision-tree engine.
    Tree(TreeError),
}

/// The wire discriminant of a model kind (the channel carries kinds as
/// the integers 1 through 5).
pub open spec fn spec_kind_discriminant(kind: ModelKind) -> u32 {
    match kind {
        ModelKind::Linear => 1,
        ModelKind::Multiple => 2,
        ModelKind::Polynomial => 3,
        ModelKind::Logistic => 4,
        ModelKind::Tree => 5,
    }
}

/// The model kind a wire discriminant denotes, if any.
pub open spec fn spec_kind_from_discriminant(d: u32) -> Option<ModelKind> {
    if d == 1 {
        Some(ModelKind::Linear)
    } else if d == 2 {
        Some(ModelKind::Multiple)
    } else if d == 3 {
        Some(ModelKind::Polynomial)
    } else if d == 4 {
        Some(ModelKind::Logistic)
    } else if d == 5 {
        Some(ModelKind::Tree)
    } else {
        None
    }
}

/// Maps a model kind to its wire discriminant.
pub fn kind_discriminant(kind: ModelKind) -> (d: u32)
    ensures
        d == spec_kind_discriminant(kind),
{
    match kind {
        ModelKind::Linear => 1,
        ModelKind::Multiple => 2,
        ModelKind::Polynomial => 3,
        ModelKind::Logistic => 4,
        ModelKind::Tree => 5,
    }
}

/// Maps a wire discriminant back to its model kind; an unrecognized
/// discriminant maps to nothing.
pub fn kind_from_discriminant(d: u32) -> (r: Option<ModelKind>)
    ensures
        r == spec_kind_from_discriminant(d),
{
    if d == 1 {
        Some(ModelKind::Linear)
    } else if d == 2 {
        Some(ModelKind::Multiple)
    } else if d == 3 {
        Some(ModelKind::Polynomial)
    } else if d == 4 {
        Some(ModelKind::Logistic)
    } else if d == 5 {
        Some(ModelKind::Tree)
    } else {
        None
    }
}

/// Discriminants decode back to the kind they encode.
pub proof fn lemma_kind_discriminant_round_trip(kind: ModelKind)
    ensures
        spec_kind_from_discriminant(spec_kind_discriminant(kind)) == Some(kind),
{
}

/// The scaled prediction of one regression-family sample, or the error
/// that rejects it: a weight count that does not fit the kind, or an
/// intermediate scaled value outside the 64-bit range.  The tree kind is
/// not a regression and never reaches this formula.
pub open spec fn spec_evaluate_fixed(
    kind: ModelKind,
    ws: Seq<i64>,
    b: int,
    xs: Seq<i64>,
) -> Result<int, EvalError> {
    match kind {
        ModelKind::Linear => {
            if ws.len() != 1 || xs.len() == 0 {
                Err(EvalError::WeightCountMismatch)
            } else if !fits_i64(fx_mul(ws[0] as int, xs[0] as int)) || !fits_i64(
                fx_mul(ws[0] as int, xs[0] as int) + b,
            ) {
                Err(EvalError::ValueOutOfRange)
            } else {
                Ok(fx_mul(ws[0] as int, xs[0] as int) + b)
            }
        },
        ModelKind::Multiple => {
            if ws.len() != xs.len() {
                Err(EvalError::WeightCountMismatch)
            } else if !(dot_terms_fit(xs, ws) && dot_partials_fit(xs, ws) && fits_i64(
                fx_dot(xs, ws, xs.len() as int) + b,
            )) {
                Err(EvalError::ValueOutOfRange)
            } else {
                Ok(fx_dot(xs, ws, xs.len() as int) + b)
            }
        },
        ModelKind::Polynomial => {
            if ws.len() == 0 || xs.len() == 0 {
                Err(EvalError::WeightCountMismatch)
            } else if !horner_steps_fit(ws, xs[0] as int) {
                Err(EvalError::ValueOutOfRange)
            } else {
                Ok(fx_horner(ws, xs[0] as int, ws.len() as int))
            }
        },
        ModelKind::Logistic => {
            if ws.len() != xs.len() {
                Err(EvalError::WeightCountMismatch)
            } else if !(dot_terms_fit(xs, ws) && dot_partials_fit(xs, ws) && fits_i64(
                fx_dot(xs, ws, xs.len() as int) + b,
            )) {
                Err(EvalError::ValueOutOfRange)
            } else if !sigmoid_arg_fits(fx_dot(xs, ws, xs.len() as int) + b) {
                Err(EvalError::ValueOutOfRange)
            } else {
                Ok(sigmoid_fx_spec(fx_dot(xs, ws, xs.len() as int) + b))
            }
        },
        ModelKind::Tree => Err(EvalError::UnknownModelKind),
    }
}

/// The accepted linear prediction approximates the exact one: scaled by
/// the scale factor, the fixed-point result sits within one scaled unit
/// below `w*x + SCALE*b` (which is the exact real prediction times the
/// scale factor squared), so the real error is under `1 / SCALE`.
pub proof fn lemma_evaluate_linear_error(ws: Seq<i64>, b: int, xs: Seq<i64>, v: int)
    requires
        spec_evaluate_fixed(ModelKind::Linear, ws, b, xs) == Ok::<int, EvalError>(v),
    ensures
        0 <= ws[0] as int * (xs[0] as int) + (crate::fixed::SCALE as int) * b - (
        crate::fixed::SCALE as int) * v < (crate::fixed::SCALE as int),
{
    crate::models::lemma_linear_fixed_error(ws[0] as int, xs[0] as int, b);
}

/// The accepted multiple-regression prediction approximates the exact
/// one: after `n` rounded terms the scaled deficit against the exact
/// dot product plus bias is between 0 and `n * SCALE`, so the real
/// error is at most `n / SCALE`.
pub proof fn lemma_evaluate_multiple_error(ws: Seq<i64>, b: int, xs: Seq<i64>, v: int)
    requires
        spec_evaluate_fixed(ModelKind::Multiple, ws, b, xs) == Ok::<int, EvalError>(v),
    ensures
        0 <= crate::models::exact_dot(xs, ws, xs.len() as int) + (crate::fixed::SCALE as int) * b
            - (crate::fixed::SCALE as int) * v <= xs.len() * (crate::fixed::SCALE as int),
{
    crate::models::lemma_dot_fixed_error(xs, ws, xs.len() as int);
}

/// The accepted polynomial prediction approximates the exact Horner
/// value: for arguments whose real value lies in `[-1, 1]`, the
/// normalized deficit after `n` coefficients is at most `n` scaled
/// units, so the real error is at most `n / SCALE`.
pub proof fn lemma_evaluate_polynomial_error(ws: Seq<i64>, b: int, xs: Seq<i64>, v: int)
    requires
        spec_evaluate_fixed(ModelKind::Polynomial, ws, b, xs) == Ok::<int, EvalError>(v),
        -(crate::fixed::SCALE as int) <= xs[0] as int <= (crate::fixed::SCALE as int),
    ensures
        ({
            let s = crate::fixed::SCALE as int;
            let n = ws.len() as int;
            let p = vstd::arithmetic::power::pow(s, (n - 1) as nat);
            -(n * p) <= v * p - crate::models::exact_horner(ws, xs[0] as int, n) <= n * p
        }),
{
    crate::models::lemma_horner_fixed_error(ws, xs[0] as int, ws.len() as int);
}

/// The accepted logistic prediction approximates the exact clamped
/// cubic on the exact sum, whenever both the fixed and the exact sums
/// lie in the real interval `[-1, 1]`: normalized by the scale factor
/// to the sixth power, the gap is at most `3 * SCALE^6` for the sigmoid
/// pipeline plus a Lipschitz term for the drift of the sum, so the real
/// error is at most about `(3 + 0.21 * n) / SCALE` for `n` features.
pub proof fn lemma_evaluate_logistic_error(ws: Seq<i64>, b: int, xs: Seq<i64>, v: int)
    requires
        spec_evaluate_fixed(ModelKind::Logistic, ws, b, xs) == Ok::<int, EvalError>(v),
        -(crate::fixed::SCALE as int) <= fx_dot(xs, ws, xs.len() as int) + b <= (
        crate::fixed::SCALE as int),
        -0x100000000 <= crate::models::exact_dot(xs, ws, xs.len() as int) + (
        crate::fixed::SCALE as int) * b <= 0x100000000,
    ensures
        ({
            let n = xs.len() as int;
            let zx = crate::models::exact_dot(xs, ws, n) + (crate::fixed::SCALE as int) * b;
            let f = crate::models::exact_sigmoid_core2(zx);
            let fc = if f < 0 {
                0int
            } else if f > 0x10000000000000000000000000000 {
                0x10000000000000000000000000000int
            } else {
                f
            };
            let bound = 3 * 0x1000000000000000000000000 + ((crate::models::A1_FX + 3
                * crate::models::A3_FX) as int) * 0x100000000000000000000 * n;
            -bound <= 0x1000000000000000000000000 * v - fc <= bound
        }),
{
    crate::models::lemma_logistic_fixed_error(xs, ws, b);
}

/// Checks that every scaled term, every running sum, and the final
/// biased sum of the dot product stay representable.
fn dot_fits(xs: &[i64], ws: &[i64], b: i64) -> (ok: bool)
    requires
        xs@.len() == ws@.len(),
    ensures
        ok == (dot_terms_fit(xs@, ws@) && dot_partials_fit(xs@, ws@) && fits_i64(
            fx_dot(xs@, ws@, xs@.len() as int) + b,
        )),
{
    let n = xs.len();
    let mut acc: i128 = 0;
    for i in 0..n
        invariant
            n == xs@.len(),
            n == ws@.len(),
            acc == fx_dot(xs@, ws@, i as int),
            forall|k: int| 0 <= k < i ==> fits_i64(fx_mul(xs@[k] as int, ws@[k] as int)),
            forall|k: int| 0 <= k <= i ==> fits_i64(fx_dot(xs@, ws@, k)),
    {
        let t = fixed_mul_wide(xs[i], ws[i]);
        if t < i64::MIN as i128 || t > i64::MAX as i128 {
            proof {
                assert(!fits_i64(fx_mul(xs@[i as int] as int, ws@[i as int] as int)));
                assert(!dot_terms_fit(xs@, ws@));
            }
            return false;
        }
        acc = acc + t;
        proof {
            assert(acc == fx_dot(xs@, ws@, i + 1));
        }
        if acc < i64::MIN as i128 || acc > i64::MAX as i128 {
            proof {
                assert(!fits_i64(fx_dot(xs@, ws@, i + 1)));
                assert(!dot_partials_fit(xs@, ws@));
            }
            return false;
        }
    }
    let fin: i128 = acc + b as i128;
    if fin < i64::MIN as i128 || fin > i64::MAX as i128 {
        false
    } else {
        true
    }
}

/// Checks that every Horner step (scaled product, then coefficient
/// addition) stays representable.
fn horner_fits(coeffs: &[i64], x: i64) -> (ok: bool)
    ensures
        ok == horner_steps_fit(coeffs@, x as int),
{
    let n = coeffs.len();
    let mut acc: i64 = 0;
    let mut k: usize = 0;
    while k < n
        invariant
            k <= n,
            n == coeffs@.len(),
            acc == fx_horner(coeffs@, x as int, k as int),
            forall|j: int|
                0 <= j < k ==> fits_i64(#[trigger] fx_mul(fx_horner(coeffs@, x as int, j), x as int))
                    && fits_i64(fx_horner(coeffs@, x as int, j + 1)),
        decreases n - k,
    {
        let t: i128 = fixed_mul_wide(acc, x);
        if t < i64::MIN as i128 || t > i64::MAX as i128 {
            proof {
                assert(!fits_i64(fx_mul(fx_horner(coeffs@, x as int, k as int), x as int)));
                assert(!horner_steps_fit(coeffs@, x as int));
            }
            return false;
        }
        let s: i128 = t + coeffs[n - 1 - k] as i128;
        if s < i64::MIN as i128 || s > i64::MAX as i128 {
            proof {
                assert(s == fx_horner(coeffs@, x as int, k + 1));
                assert(!fits_i64(fx_horner(coeffs@, x as int, k + 1)));
                assert(!horner_steps_fit(coeffs@, x as int));
            }
            return false;
        }
        acc = s as i64;
        proof {
            assert(acc == fx_horner(coeffs@, x as int, k + 1));
            assert(fits_i64(fx_mul(fx_horner(coeffs@, x as int, k as int), x as int)));
            assert(fits_i64(fx_horner(coeffs@, x as int, k + 1)));
            assert forall|j: int| 0 <= j < k + 1 implies fits_i64(
                #[trigger] fx_mul(fx_horner(coeffs@, x as int, j), x as int),
            ) && fits_i64(fx_horner(coeffs@, x as int, j + 1)) by {
                if j == k as int {
                    assert(fits_i64(fx_mul(fx_horner(coeffs@, x as int, j), x as int)));
                    assert(fits_i64(fx_horner(coeffs@, x as int, j + 1)));
                }
            }
        }
        k = k + 1;
    }
    true
}

/// Checks that the sigmoid argument's square and cube stay representable.
fn sigmoid_fits(z: i64) -> (ok: bool)
    ensures
        ok == sigmoid_arg_fits(z as int),
{
    let z2w = fixed_mul_wide(z, z);
    if z2w < i64::MIN as i128 || z2w > i64::MAX as i128 {
        return false;
    }
    let z3w = fixed_mul_wide(z2w as i64, z);
    if z3w < i64::MIN as i128 || z3w > i64::MAX as i128 {
        return false;
    }
    true
}

/// Evaluates one regression-family sample in fixed-point mode,
/// dispatching on the model kind:
/// linear (`feature[0] * weight[0] + bias`), multiple (dot product plus
/// bias), polynomial (Horner over the coefficients, on the first
/// feature), or logistic (the multiple-regression sum fed through the
/// clamped cubic sigmoid approximation).
pub fn evaluate_fixed(kind: ModelKind, weights_fx: &Vec<i64>, b_fx: i64, features_fx: &Vec<i64>)
    -> (r: Result<i64, EvalError>)
    ensures
        match (r, spec_evaluate_fixed(kind, weights_fx@, b_fx as int, features_fx@)) {
            (Ok(v), Ok(s)) => v == s,
            (Err(e), Err(es)) => e == es,
            _ => false,
        },
{
    match kind {
        ModelKind::Linear => {
            if weights_fx.len() != 1 || features_fx.len() == 0 {
                return Err(EvalError::WeightCountMismatch);
            }
            let t = fixed_mul_wide(weights_fx[0], features_fx[0]);
            if t < i64::MIN as i128 || t > i64::MAX as i128 {
                return Err(EvalError::ValueOutOfRange);
            }
            let s = t + b_fx as i128;
            if s < i64::MIN as i128 || s > i64::MAX as i128 {
                return Err(EvalError::ValueOutOfRange);
            }
            Ok(fixed_mul(weights_fx[0], features_fx[0]) + b_fx)
        },
        ModelKind::Multiple => {
            if weights_fx.len() != features_fx.len() {
                return Err(EvalError::WeightCountMismatch);
            }
            if !dot_fits(features_fx.as_slice(), weights_fx.as_slice(), b_fx) {
                return Err(EvalError::ValueOutOfRange);
            }
            Ok(multiple_regression_fixed_accumulate(
                features_fx.as_slice(),
                weights_fx.as_slice(),
                b_fx,
            ))
        },
        ModelKind::Polynomial => {
            if weights_fx.len() == 0 || features_fx.len() == 0 {
                return Err(EvalError::WeightCountMismatch);
            }
            if !horner_fits(weights_fx.as_slice(), features_fx[0]) {
                return Err(EvalError::ValueOutOfRange);
            }
            Ok(polynomial_fixed_horner(features_fx[0], weights_fx.as_slice()))
        },
        ModelKind::Logistic => {
            if weights_fx.len() != features_fx.len() {
                return Err(EvalError::WeightCountMismatch);
            }
            if !dot_fits(features_fx.as_slice(), weights_fx.as_slice(), b_fx) {
                return Err(EvalError::ValueOutOfRange);
            }
            let z = multiple_regression_fixed_accumulate(
                features_fx.as_slice(),
                weights_fx.as_slice(),
                b_fx,
            );
            if !sigmoid_fits(z) {
                return Err(EvalError::ValueOutOfRange);
            }
            Ok(sigmoid_fixed_approx(z))
        },
        ModelKind::Tree => Err(EvalError::UnknownModelKind),
    }
}

/// Runs one regression-family evaluation pass over the whole dataset, in
/// dataset order, and commits the sealed journal of (predicted,
/// expected) pairs.  The pass is all or nothing: the first sample the
/// kind's formula rejects aborts the evaluation with that error and no
/// journal.
pub fn evaluate_dataset_fixed(
    kind: ModelKind,
    weights_fx: &Vec<i64>,
    b_fx: i64,
    dataset: &Vec<(Vec<i64>, i64)>,
) -> (r: Result<Journal, EvalError>)
    requires
        dataset@.len() > 0,
    ensures
        (r is Ok) <==> (forall|i: int|
            0 <= i < dataset@.len() ==> (#[trigger] spec_evaluate_fixed(
                kind,
                weights_fx@,
                b_fx as int,
                dataset@[i].0@,
            )) is Ok),
        r matches Ok(j) ==> {
            &&& j.is_sealed()
            &&& j.entries().len() == dataset@.len()
            &&& forall|i: int|
                0 <= i < dataset@.len() ==> ((#[trigger] j.entries()[i]) matches
                    PredictionRecord::Scalar { predicted, expected } && spec_evaluate_fixed(
                    kind,
                    weights_fx@,
                    b_fx as int,
                    dataset@[i].0@,
                ) matches Ok(p) && predicted == p && expected == dataset@[i].1)
        },
        r matches Err(e) ==> exists|i: int|
            0 <= i < dataset@.len() && (forall|k: int|
                0 <= k < i ==> spec_evaluate_fixed(
                    kind,
                    weights_fx@,
                    b_fx as int,
                    dataset@[k].0@,
                ) is Ok) && ((#[trigger] spec_evaluate_fixed(
                kind,
                weights_fx@,
                b_fx as int,
                dataset@[i].0@,
            )) matches Err(e2) && e == e2),
{
    let mut journal = Journal::new();
    let n = dataset.len();
    for i in 0..n
        invariant
            n == dataset@.len(),
            !journal.is_sealed(),
            journal.entries().len() == i,
            forall|k: int|
                0 <= k < i ==> (#[trigger] spec_evaluate_fixed(
                    kind,
                    weights_fx@,
                    b_fx as int,
                    dataset@[k].0@,
                )) is Ok,
            forall|k: int|
                0 <= k < i ==> ((#[trigger] journal.entries()[k]) matches
                    PredictionRecord::Scalar { predicted, expected } && spec_evaluate_fixed(
                    kind,
                    weights_fx@,
                    b_fx as int,
                    dataset@[k].0@,
                ) matches Ok(p) && predicted == p && expected == dataset@[k].1),
    {
        let pair = &dataset[i];
        match evaluate_fixed(kind, weights_fx, b_fx, &pair.0) {
            Ok(p) => {
                journal.append(PredictionRecord::Scalar { predicted: p, expected: pair.1 });
            },
            Err(e) => {
                return Err(e);
            },
        }
    }
    journal.seal();
    Ok(journal)
}

/// Runs the tree evaluation pass over the whole dataset, in dataset
/// order, and commits the sealed journal of (class distribution,
/// expected class) pairs.  The identity index is built once before the
/// pass; the first structural defect aborts the evaluation with that
/// error and no journal.
pub fn evaluate_dataset_tree(nodes: &Vec<TreeNode>, dataset: &Vec<Sample>) -> (r: Result<
    Journal,
    EvalError,
>)
    requires
        max_id(nodes@) < usize::MAX,
        dataset@.len() > 0,
    ensures
        (r is Ok) <==> (forall|i: int|
            0 <= i < dataset@.len() ==> (#[trigger] spec_traverse(
                nodes@,
                dataset@[i].features@,
            )) is Ok),
        r matches Ok(j) ==> {
            &&& j.is_sealed()
            &&& j.entries().len() == dataset@.len()
            &&& forall|i: int|
                0 <= i < dataset@.len() ==> ((#[trigger] j.entries()[i]) matches
                    PredictionRecord::Classes { distribution, expected_class } && spec_traverse(
                    nodes@,
                    dataset@[i].features@,
                ) matches Ok(v) && distribution@ == v && expected_class == dataset@[i].expected)
        },
        r matches Err(e) ==> exists|i: int|
            0 <= i < dataset@.len() && (forall|k: int|
                0 <= k < i ==> spec_traverse(nodes@, dataset@[k].features@) is Ok) && ((
            #[trigger] spec_traverse(nodes@, dataset@[i].features@)) matches Err(te) && e
                == EvalError::Tree(te)),
{
    let id_index = build_id_index(nodes);
    let mut journal = Journal::new();
    let n = dataset.len();
    for i in 0..n
        invariant
            n == dataset@.len(),
            crate::tree::built_index(nodes@, id_index@),
            !journal.is_sealed(),
            journal.entries().len() == i,
            forall|k: int|
                0 <= k < i ==> (#[trigger] spec_traverse(nodes@, dataset@[k].features@)) is Ok,
            forall|k: int|
                0 <= k < i ==> ((#[trigger] journal.entries()[k]) matches
                    PredictionRecord::Classes { distribution, expected_class } && spec_traverse(
                    nodes@,
                    dataset@[k].features@,
                ) matches Ok(v) && distribution@ == v && expected_class == dataset@[k].expected),
    {
        let sample = &dataset[i];
        match traverse_tree(nodes, &id_index, &sample.features) {
            Ok(dist) => {
                journal.append(
                    PredictionRecord::Classes { distribution: dist, expected_class: sample.expected },
                );
            },
            Err(te) => {
                return Err(EvalError::Tree(te));
            },
        }
    }
    journal.seal();
    Ok(journal)
}

} // verus!
