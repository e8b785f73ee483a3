use verse_core::dataset::get_dataset;
use verse_core::evaluator::{evaluate_dataset_fixed, evaluate_fixed, EvalError, ModelKind};
use verse_core::fixed::SCALE;
use verse_core::journal::PredictionRecord;
use verse_core::models::{
    multiple_regression_fixed_accumulate, polynomial_fixed_horner, sigmoid_fixed_approx, A1_FX,
    A3_FX, HALF_FX,
};

fn fx(x: f64) -> i64 {
    (x * SCALE as f64).round() as i64
}

#[test]
fn linear_scenario_prediction_is_seven() {
    // weights [2.0], bias 1.0, feature [3.0] -> prediction 7.0
    let r = evaluate_fixed(ModelKind::Linear, &vec![fx(2.0)], fx(1.0), &vec![fx(3.0)]);
    assert_eq!(r, Ok(7 * SCALE));
    let real = 7 * SCALE as i64;
    assert!((real as f64 / SCALE as f64 - 7.0).abs() <= 1e-3);
}

#[test]
fn multiple_scenario_prediction_is_seven() {
    // weights [1.0, 1.0, 1.0], bias 0.0, features [2.0, 2.0, 3.0] -> 7.0
    let w = vec![SCALE, SCALE, SCALE];
    let x = vec![fx(2.0), fx(2.0), fx(3.0)];
    let r = evaluate_fixed(ModelKind::Multiple, &w, 0, &x);
    assert_eq!(r, Ok(7 * SCALE));
}

#[test]
fn multiple_against_builtin_dataset() {
    // the evaluator's own dataset contract: first sample is (2.0, 2.0, 3.0) -> 14.0
    let w = vec![SCALE, SCALE, SCALE];
    let journal = evaluate_dataset_fixed(ModelKind::Multiple, &w, 0, &get_dataset()).unwrap();
    assert!(journal.sealed());
    assert_eq!(journal.len(), 4);
    match journal.record_at(0) {
        PredictionRecord::Scalar { predicted, expected } => {
            assert_eq!(*predicted, 7 * SCALE);
            assert_eq!(*expected, 14 * SCALE);
        }
        _ => panic!("regression journal must hold scalar records"),
    }
}

#[test]
fn polynomial_horner_evaluates_lowest_degree_first() {
    // coefficients [1.0, 2.0] mean 1 + 2x; at x = 3.0 the value is 7.0
    let coeffs = vec![SCALE, 2 * SCALE];
    let r = evaluate_fixed(ModelKind::Polynomial, &coeffs, 0, &vec![fx(3.0)]);
    assert_eq!(r, Ok(7 * SCALE));
    // direct primitive call agrees
    assert_eq!(polynomial_fixed_horner(fx(3.0), &coeffs), 7 * SCALE);
}

#[test]
fn logistic_zero_weights_give_exactly_half() {
    // weights [0,0,0], bias 0, any features: z = 0, sigmoid approximation = 0.5
    let w = vec![0, 0, 0];
    let x = vec![fx(1.25), fx(-7.5), fx(42.0)];
    let r = evaluate_fixed(ModelKind::Logistic, &w, 0, &x);
    assert_eq!(r, Ok(SCALE / 2));
}

#[test]
fn sigmoid_approximation_constants_and_values() {
    assert_eq!(A1_FX, fx(0.1963));
    assert_eq!(A3_FX, fx(0.004375));
    assert_eq!(HALF_FX, SCALE / 2);
    assert_eq!(sigmoid_fixed_approx(0), HALF_FX);
    // at z = 1.0: 0.5 + a1 - a3, all representable exactly in scaled units
    assert_eq!(sigmoid_fixed_approx(SCALE), HALF_FX + A1_FX - A3_FX);
    // odd symmetry around one half for arguments the cubic keeps in range
    assert_eq!(
        sigmoid_fixed_approx(SCALE) - HALF_FX,
        HALF_FX - sigmoid_fixed_approx(-SCALE)
    );
    // far out of range, the result saturates at the probability bounds
    assert_eq!(sigmoid_fixed_approx(100 * SCALE), 0);
    assert_eq!(sigmoid_fixed_approx(-100 * SCALE), SCALE);
}

#[test]
fn accumulate_matches_plain_dot_product() {
    let xs = vec![fx(2.0), fx(2.0), fx(3.0)];
    let ws = vec![fx(1.5), fx(2.5), fx(0.25)];
    let b = fx(0.5);
    let got = multiple_regression_fixed_accumulate(&xs, &ws, b);
    let exact = 2.0 * 1.5 + 2.0 * 2.5 + 3.0 * 0.25 + 0.5;
    // one rounding step per multiplication: within 3 scaled units plus bias
    assert!((got as f64 / SCALE as f64 - exact).abs() <= 4.0 / SCALE as f64);
}

#[test]
fn fixed_point_tracks_reference_within_rounding() {
    // fixed-point evaluation against native-real evaluation of the same model
    let wreal = [0.1963, -1.75, 3.0];
    let xreal = [5.1, 0.25, -0.125];
    let ws: Vec<i64> = wreal.iter().map(|v| fx(*v)).collect();
    let xs: Vec<i64> = xreal.iter().map(|v| fx(*v)).collect();
    let b = fx(0.875);
    let got = evaluate_fixed(ModelKind::Multiple, &ws, b, &xs).unwrap();
    let reference: f64 = wreal.iter().zip(xreal.iter()).map(|(w, x)| w * x).sum::<f64>() + 0.875;
    // k rounding steps plus the input quantization of six operands
    let tolerance = (3.0 + 6.0) / SCALE as f64;
    assert!((got as f64 / SCALE as f64 - reference).abs() <= tolerance);
}

#[test]
fn linear_with_two_weights_is_rejected() {
    let r = evaluate_fixed(ModelKind::Linear, &vec![SCALE, SCALE], 0, &vec![fx(3.0)]);
    assert_eq!(r, Err(EvalError::WeightCountMismatch));
}

#[test]
fn multiple_weight_count_mismatch_is_rejected() {
    let r = evaluate_fixed(ModelKind::Multiple, &vec![SCALE, SCALE], 0, &vec![fx(1.0); 3]);
    assert_eq!(r, Err(EvalError::WeightCountMismatch));
}

#[test]
fn logistic_weight_count_mismatch_is_rejected() {
    let r = evaluate_fixed(ModelKind::Logistic, &vec![SCALE; 4], 0, &vec![fx(1.0); 3]);
    assert_eq!(r, Err(EvalError::WeightCountMismatch));
}

#[test]
fn polynomial_without_coefficients_is_rejected() {
    let r = evaluate_fixed(ModelKind::Polynomial, &vec![], 0, &vec![fx(3.0)]);
    assert_eq!(r, Err(EvalError::WeightCountMismatch));
}

#[test]
fn tree_kind_is_not_a_regression() {
    let r = evaluate_fixed(ModelKind::Tree, &vec![SCALE], 0, &vec![SCALE]);
    assert_eq!(r, Err(EvalError::UnknownModelKind));
}

#[test]
fn overflowing_values_are_rejected_not_wrapped() {
    let r = evaluate_fixed(ModelKind::Multiple, &vec![i64::MAX], 0, &vec![i64::MAX]);
    assert_eq!(r, Err(EvalError::ValueOutOfRange));
    let r2 = evaluate_fixed(ModelKind::Linear, &vec![i64::MAX], i64::MAX, &vec![SCALE]);
    assert_eq!(r2, Err(EvalError::ValueOutOfRange));
}

#[test]
fn dataset_pass_aborts_on_first_error_with_no_journal() {
    // mismatched weight count fails on the very first sample
    let r = evaluate_dataset_fixed(ModelKind::Multiple, &vec![SCALE], 0, &get_dataset());
    assert!(matches!(r, Err(EvalError::WeightCountMismatch)));
}
