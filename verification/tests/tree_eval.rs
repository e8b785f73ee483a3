use verse_core::dataset::get_dataset_tree;
use verse_core::evaluator::{evaluate_dataset_tree, EvalError};
use verse_core::fixed::SCALE;
use verse_core::journal::PredictionRecord;
use verse_core::tree::{build_id_index, check_tree, traverse_tree, Sample, TreeError, TreeNode};

fn split(id: usize, feature: usize, threshold: i64, left: usize, right: usize) -> TreeNode {
    TreeNode {
        id,
        feature: Some(feature),
        threshold: Some(threshold),
        left: Some(left),
        right: Some(right),
        value: vec![],
    }
}

fn leaf(id: usize, value: Vec<i64>) -> TreeNode {
    TreeNode { id, feature: None, threshold: None, left: None, right: None, value: vec![value] }
}

fn two_leaf_tree() -> Vec<TreeNode> {
    // root splits feature 0 at 5.0; left leaf = class 0, right leaf = class 1
    vec![
        split(0, 0, 5 * SCALE, 1, 2),
        leaf(1, vec![SCALE, 0, 0]),
        leaf(2, vec![0, SCALE, 0]),
    ]
}

#[test]
fn tree_scenario_follows_comparison_chain() {
    let nodes = two_leaf_tree();
    let index = build_id_index(&nodes);
    // feature[0] = 4.0 <= 5.0: left leaf
    let low = traverse_tree(&nodes, &index, &vec![4 * SCALE]).unwrap();
    assert_eq!(low, vec![SCALE, 0, 0]);
    // feature[0] = 6.0 > 5.0: right leaf
    let high = traverse_tree(&nodes, &index, &vec![6 * SCALE]).unwrap();
    assert_eq!(high, vec![0, SCALE, 0]);
}

#[test]
fn threshold_boundary_goes_left() {
    let nodes = two_leaf_tree();
    let index = build_id_index(&nodes);
    let at = traverse_tree(&nodes, &index, &vec![5 * SCALE]).unwrap();
    assert_eq!(at, vec![SCALE, 0, 0]);
}

#[test]
fn index_maps_identities_to_positions() {
    let nodes = vec![leaf(2, vec![SCALE]), leaf(0, vec![0])];
    let index = build_id_index(&nodes);
    assert_eq!(index.len(), 3);
    assert_eq!(index[0], 1);
    assert_eq!(index[1], usize::MAX);
    assert_eq!(index[2], 0);
}

#[test]
fn unmapped_root_aborts() {
    // an identity absent from the index aborts rather than defaulting
    let nodes = vec![leaf(3, vec![SCALE])];
    let index = build_id_index(&nodes);
    let r = traverse_tree(&nodes, &index, &vec![0]);
    assert_eq!(r, Err(TreeError::UnmappedId));
}

#[test]
fn unmapped_child_aborts() {
    let nodes = vec![split(0, 0, SCALE, 1, 2), leaf(1, vec![SCALE]), leaf(3, vec![0])];
    let index = build_id_index(&nodes);
    // feature beyond the threshold routes to child 2, which is unmapped
    let r = traverse_tree(&nodes, &index, &vec![2 * SCALE]);
    assert_eq!(r, Err(TreeError::UnmappedId));
}

#[test]
fn child_outside_index_range_aborts() {
    let nodes = vec![split(0, 0, SCALE, 1, 7), leaf(1, vec![SCALE])];
    let index = build_id_index(&nodes);
    let r = traverse_tree(&nodes, &index, &vec![2 * SCALE]);
    assert_eq!(r, Err(TreeError::UnknownId));
}

#[test]
fn missing_threshold_aborts() {
    let mut node = split(0, 0, SCALE, 1, 2);
    node.threshold = None;
    let nodes = vec![node, leaf(1, vec![SCALE]), leaf(2, vec![0])];
    let index = build_id_index(&nodes);
    let r = traverse_tree(&nodes, &index, &vec![0]);
    assert_eq!(r, Err(TreeError::MissingThreshold));
}

#[test]
fn missing_child_aborts() {
    let mut node = split(0, 0, SCALE, 1, 2);
    node.left = None;
    let nodes = vec![node, leaf(1, vec![SCALE]), leaf(2, vec![0])];
    let index = build_id_index(&nodes);
    let r = traverse_tree(&nodes, &index, &vec![0]);
    assert_eq!(r, Err(TreeError::MissingChild));
}

#[test]
fn leaf_without_distribution_aborts() {
    let nodes = vec![TreeNode {
        id: 0,
        feature: None,
        threshold: None,
        left: None,
        right: None,
        value: vec![],
    }];
    let index = build_id_index(&nodes);
    let r = traverse_tree(&nodes, &index, &vec![0]);
    assert_eq!(r, Err(TreeError::MalformedLeaf));
}

#[test]
fn feature_outside_sample_aborts() {
    let nodes = vec![split(0, 5, SCALE, 1, 2), leaf(1, vec![SCALE]), leaf(2, vec![0])];
    let index = build_id_index(&nodes);
    let r = traverse_tree(&nodes, &index, &vec![0, 0]);
    assert_eq!(r, Err(TreeError::FeatureOutOfRange));
}

#[test]
fn backward_reference_aborts_instead_of_cycling() {
    // node 1 points back to the root: following it could loop forever
    let nodes = vec![split(0, 0, SCALE, 1, 1), split(1, 0, SCALE, 0, 0)];
    let index = build_id_index(&nodes);
    let r = traverse_tree(&nodes, &index, &vec![0]);
    assert_eq!(r, Err(TreeError::BackwardChild));
}

#[test]
fn tree_dataset_pass_classifies_iris_slice() {
    // a stump on petal length (feature 2) at 2.45 separates class 0
    let nodes = vec![
        split(0, 2, (2.45 * SCALE as f64) as i64, 1, 2),
        leaf(1, vec![SCALE, 0, 0]),
        leaf(2, vec![0, SCALE, 0]),
    ];
    let dataset = get_dataset_tree();
    let journal = evaluate_dataset_tree(&nodes, &dataset).unwrap();
    assert!(journal.sealed());
    assert_eq!(journal.len(), 5);
    for i in 0..journal.len() {
        match journal.record_at(i) {
            PredictionRecord::Classes { distribution, expected_class } => {
                assert_eq!(*expected_class, dataset[i].expected);
                // the two class-0 samples fall left, the rest fall right
                if dataset[i].expected == 0 {
                    assert_eq!(distribution[0], SCALE);
                } else {
                    assert_eq!(distribution[1], SCALE);
                }
            }
            _ => panic!("tree journal must hold class records"),
        }
    }
}

#[test]
fn check_tree_accepts_well_formed_trees() {
    assert!(check_tree(&two_leaf_tree(), 1));
    assert!(check_tree(&two_leaf_tree(), 4));
}

#[test]
fn check_tree_rejects_structural_defects() {
    // empty table
    assert!(!check_tree(&vec![], 1));
    // root identity missing
    assert!(!check_tree(&vec![leaf(3, vec![SCALE])], 1));
    // split feature outside the sample width
    assert!(!check_tree(&two_leaf_tree(), 0));
    // unresolved child identity
    assert!(!check_tree(&vec![split(0, 0, SCALE, 1, 7), leaf(1, vec![SCALE])], 1));
    // backward child reference
    assert!(!check_tree(
        &vec![split(0, 0, SCALE, 1, 1), split(1, 0, SCALE, 0, 0)],
        1
    ));
    // partially populated node: a leaf carrying children
    let mut half_leaf = leaf(1, vec![SCALE]);
    half_leaf.left = Some(2);
    assert!(!check_tree(&vec![split(0, 0, SCALE, 1, 2), half_leaf, leaf(2, vec![0])], 1));
    // leaf without a value distribution
    let bare = TreeNode { id: 0, feature: None, threshold: None, left: None, right: None, value: vec![] };
    assert!(!check_tree(&vec![bare], 1));
}

#[test]
fn tree_dataset_pass_aborts_on_structural_defect() {
    // the sample exceeds the threshold, routing to the unmapped child 2
    let nodes = vec![split(0, 0, SCALE, 1, 2), leaf(1, vec![SCALE]), leaf(3, vec![0])];
    let dataset = vec![Sample { features: vec![2 * SCALE], expected: 0 }];
    let r = evaluate_dataset_tree(&nodes, &dataset);
    assert_eq!(r.err(), Some(EvalError::Tree(TreeError::UnmappedId)));
}
