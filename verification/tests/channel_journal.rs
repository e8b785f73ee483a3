use verse_core::channel::{
    decode_params, encode_params, ArithmeticMode, ChannelError, ChannelValue, EvalRequest,
    ModelSpec,
};
use verse_core::config::auth_path;
use verse_core::dataset::{get_dataset, get_dataset_tree};
use verse_core::evaluator::{kind_discriminant, kind_from_discriminant, ModelKind};
use verse_core::fixed::SCALE;
use verse_core::journal::{Journal, PredictionRecord};
use verse_core::tree::TreeNode;

#[test]
fn kind_discriminants_round_trip() {
    let kinds = [
        ModelKind::Linear,
        ModelKind::Multiple,
        ModelKind::Polynomial,
        ModelKind::Logistic,
        ModelKind::Tree,
    ];
    for (i, kind) in kinds.iter().enumerate() {
        let d = kind_discriminant(*kind);
        assert_eq!(d as usize, i + 1);
        assert_eq!(kind_from_discriminant(d), Some(*kind));
    }
    assert_eq!(kind_from_discriminant(0), None);
    assert_eq!(kind_from_discriminant(6), None);
}

#[test]
fn regression_request_round_trips() {
    let req = EvalRequest {
        mode: ArithmeticMode::Optimized,
        model: ModelSpec::Regression {
            kind: ModelKind::Multiple,
            weights: vec![SCALE, 2 * SCALE],
            bias: -SCALE,
        },
    };
    let wire = encode_params(req);
    assert_eq!(wire.len(), 4);
    assert!(matches!(wire[0], ChannelValue::Word(1)));
    assert!(matches!(wire[1], ChannelValue::Word(2)));
    let back = decode_params(wire).unwrap();
    assert_eq!(back.mode, ArithmeticMode::Optimized);
    match back.model {
        ModelSpec::Regression { kind, weights, bias } => {
            assert_eq!(kind, ModelKind::Multiple);
            assert_eq!(weights, vec![SCALE, 2 * SCALE]);
            assert_eq!(bias, -SCALE);
        }
        _ => panic!("regression request decoded to the wrong shape"),
    }
}

#[test]
fn tree_request_round_trips() {
    let nodes = vec![TreeNode {
        id: 0,
        feature: None,
        threshold: None,
        left: None,
        right: None,
        value: vec![vec![SCALE]],
    }];
    let req = EvalRequest {
        mode: ArithmeticMode::Reference,
        model: ModelSpec::Tree { source: String::from("tree.json"), nodes },
    };
    let wire = encode_params(req);
    assert!(matches!(wire[0], ChannelValue::Word(0)));
    assert!(matches!(wire[1], ChannelValue::Word(5)));
    let back = decode_params(wire).unwrap();
    assert_eq!(back.mode, ArithmeticMode::Reference);
    match back.model {
        ModelSpec::Tree { source, nodes } => {
            assert_eq!(source, "tree.json");
            assert_eq!(nodes.len(), 1);
            assert_eq!(nodes[0].id, 0);
            assert_eq!(nodes[0].value, vec![vec![SCALE]]);
        }
        _ => panic!("tree request decoded to the wrong shape"),
    }
}

#[test]
fn malformed_payloads_are_decode_failures() {
    // too short
    let r = decode_params(vec![ChannelValue::Word(1)]);
    assert_eq!(r.err(), Some(ChannelError::WrongLength));
    // unknown arithmetic mode
    let r = decode_params(vec![
        ChannelValue::Word(7),
        ChannelValue::Word(1),
        ChannelValue::Scalars(vec![SCALE]),
        ChannelValue::Scalar(0),
    ]);
    assert_eq!(r.err(), Some(ChannelError::UnknownMode));
    // unknown model kind discriminant
    let r = decode_params(vec![
        ChannelValue::Word(1),
        ChannelValue::Word(9),
        ChannelValue::Scalars(vec![SCALE]),
        ChannelValue::Scalar(0),
    ]);
    assert_eq!(r.err(), Some(ChannelError::UnknownModelKind));
    // a tree kind followed by regression-shaped values
    let r = decode_params(vec![
        ChannelValue::Word(1),
        ChannelValue::Word(5),
        ChannelValue::Scalars(vec![SCALE]),
        ChannelValue::Scalar(0),
    ]);
    assert_eq!(r.err(), Some(ChannelError::TypeMismatch));
    // a regression kind followed by tree-shaped values
    let r = decode_params(vec![
        ChannelValue::Word(0),
        ChannelValue::Word(2),
        ChannelValue::Text(String::from("tree.json")),
        ChannelValue::Nodes(vec![]),
    ]);
    assert_eq!(r.err(), Some(ChannelError::TypeMismatch));
}

#[test]
fn journal_is_append_only_then_sealed() {
    let mut journal = Journal::new();
    assert!(!journal.sealed());
    assert_eq!(journal.len(), 0);
    journal.append(PredictionRecord::Scalar { predicted: 7 * SCALE, expected: 14 * SCALE });
    journal.append(PredictionRecord::Scalar { predicted: 0, expected: 0 });
    assert_eq!(journal.len(), 2);
    journal.seal();
    assert!(journal.sealed());
    assert_eq!(journal.len(), 2);
    match journal.record_at(0) {
        PredictionRecord::Scalar { predicted, expected } => {
            assert_eq!(*predicted, 7 * SCALE);
            assert_eq!(*expected, 14 * SCALE);
        }
        _ => panic!("expected a scalar record"),
    }
}

#[test]
fn builtin_datasets_hold_the_scaled_values() {
    let d = get_dataset();
    assert_eq!(d.len(), 4);
    assert_eq!(d[0].0, vec![2 * SCALE, 2 * SCALE, 3 * SCALE]);
    assert_eq!(d[0].1, 14 * SCALE);
    assert_eq!(d[3].0, vec![4 * SCALE, 5 * SCALE, 6 * SCALE]);
    assert_eq!(d[3].1, 32 * SCALE);

    let t = get_dataset_tree();
    assert_eq!(t.len(), 5);
    // 5.1 scales to 334233.6, rounded to nearest
    assert_eq!(t[0].features[0], 334234);
    assert_eq!(t[0].expected, 0);
    assert_eq!(t[4].expected, 2);
    for s in &t {
        assert_eq!(s.features.len(), 4);
    }
}

#[test]
fn auth_path_joins_config_dir() {
    assert_eq!(auth_path("/home/u/.config/verse"), "/home/u/.config/verse/auth.json");
    assert_eq!(auth_path(""), "/auth.json");
}
