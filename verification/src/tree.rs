//! Decision-tree engine: a flat node table plus an id-indexed traversal.
//!
//! The tree is an arena: a vector of nodes, each carrying its own identity,
//! with child references by identity rather than by ownership.  A dense
//! identity-to-position index is built once per tree; traversal resolves
//! every identity through that index.  Structural defects (an unmapped
//! identity, a missing child, a malformed leaf) are fatal errors, never
//! silently defaulted.  Acyclicity is guaranteed structurally: a child's
//! identity must be strictly greater than its parent's, and a reference
//! that points backwards is rejected during traversal.

use vstd::prelude::*;
use vstd::pervasive::VecAdditionalExecFns;

verus! {

/// One node of a decision tree: either a split node (feature, threshold
/// and both children present) or a leaf node (value distribution present,
/// nothing else).  Thresholds and leaf values are scaled integers.
pub struct TreeNode {
    /// Identity of the node, unique within a tree; the root has identity 0.
    pub id: usize,
    /// Index of the feature this node splits on; absent on leaves.
    pub feature: Option<usize>,
    /// Scaled split threshold; absent on leaves.
    pub threshold: Option<i64>,
    /// Identity of the child followed when the feature is at most the
    /// threshold; absent on leaves.
    pub left: Option<usize>,
    /// Identity of the child followed otherwise; absent on leaves.
    pub right: Option<usize>,
    /// Per-class value distributions; traversal consumes the first row.
    pub value: Vec<Vec<i64>>,
}

/// One dataset sample for the tree model: a scaled feature vector and the
/// expected class index.
pub struct Sample {
    pub features: Vec<i64>,
    pub expected: u32,
}

/// A structural defect of a tree, fatal to the whole evaluation.
#[derive(Clone, Copy, Debug, PartialEq, Eq, Structural)]
pub enum TreeError {
    /// An identity outside the range covered by the index.
    UnknownId,
    /// An identity inside the range but absent from the node table.
    UnmappedId,
    /// A split node without a threshold.
    MissingThreshold,
    /// A split node referencing a feature the sample does not have.
    FeatureOutOfRange,
    /// A split node without the required child.
    MissingChild,
    /// A child reference that does not point strictly forward; following
    /// it could revisit a node, so traversal refuses it.
    BackwardChild,
    /// A leaf without a value distribution.
    MalformedLeaf,
}

/// The greatest identity appearing in the node table (0 when empty).
pub open spec fn max_id(nodes: Seq<TreeNode>) -> int
    decreases nodes.len(),
{
    if nodes.len() == 0 {
        0
    } else {
        let rest = max_id(nodes.drop_last());
        if nodes.last().id as int > rest {
            nodes.last().id as int
        } else {
            rest
        }
    }
}

/// The storage position of the last node carrying the given identity,
/// or -1 when no node does.  Later nodes win, as in the index build.
pub open spec fn resolve(nodes: Seq<TreeNode>, id: int) -> int
    decreases nodes.len(),
{
    if nodes.len() == 0 {
        -1
    } else if nodes.last().id as int == id {
        nodes.len() - 1
    } else {
        resolve(nodes.drop_last(), id)
    }
}

/// Every node's identity is bounded by the table's maximum identity.
pub proof fn lemma_max_id_bound(nodes: Seq<TreeNode>, j: int)
    requires
        0 <= j < nodes.len(),
    ensures
        nodes[j].id as int <= max_id(nodes),
    decreases nodes.len(),
{
    if j < nodes.len() - 1 {
        lemma_max_id_bound(nodes.drop_last(), j);
    }
}

/// A resolved position is a valid index of a node carrying the identity.
pub proof fn lemma_resolve_bound(nodes: Seq<TreeNode>, id: int)
    ensures
        -1 <= resolve(nodes, id) < nodes.len(),
        resolve(nodes, id) >= 0 ==> nodes[resolve(nodes, id)].id as int == id,
    decreases nodes.len(),
{
    if nodes.len() > 0 && nodes.last().id as int != id {
        lemma_resolve_bound(nodes.drop_last(), id);
    }
}

/// The index vector is the dense identity-to-position map of the node
/// table: one slot per identity from 0 to the maximum, holding the
/// node's position, or `usize::MAX` as the unmapped sentinel.
pub open spec fn built_index(nodes: Seq<TreeNode>, index: Seq<usize>) -> bool {
    &&& index.len() == max_id(nodes) + 1
    &&& forall|id: int|
        0 <= id < index.len() ==> #[trigger] index[id] as int == (if resolve(nodes, id) >= 0 {
            resolve(nodes, id)
        } else {
            usize::MAX as int
        })
}

/// Scans all nodes once to find the maximum identity, allocates one slot
/// per identity, marks every slot unmapped, then records each node's
/// position under its identity (later nodes win).
pub fn build_id_index(nodes: &Vec<TreeNode>) -> (r: Vec<usize>)
    requires
        max_id(nodes@) < usize::MAX,
    ensures
        built_index(nodes@, r@),
{
    let n = nodes.len();
    let mut max: usize = 0;
    for i in 0..n
        invariant
            n == nodes@.len(),
            max as int == max_id(nodes@.take(i as int)),
    {
        proof {
            assert(nodes@.take(i + 1).drop_last() =~= nodes@.take(i as int));
            assert(nodes@.take(i + 1).last() == nodes@[i as int]);
        }
        if nodes[i].id > max {
            max = nodes[i].id;
        }
    }
    proof {
        assert(nodes@.take(n as int) =~= nodes@);
    }

    let mut map: Vec<usize> = Vec::new();
    while map.len() < max + 1
        invariant
            max as int == max_id(nodes@),
            max < usize::MAX,
            map@.len() <= max + 1,
            forall|k: int| 0 <= k < map@.len() ==> map@[k] == usize::MAX,
        decreases max + 1 - map.len(),
    {
        map.push(usize::MAX);
    }

    for i in 0..n
        invariant
            n == nodes@.len(),
            max as int == max_id(nodes@),
            map@.len() == max + 1,
            forall|id: int|
                0 <= id < map@.len() ==> #[trigger] map@[id] as int == (
                if resolve(nodes@.take(i as int), id) >= 0 {
                    resolve(nodes@.take(i as int), id)
                } else {
                    usize::MAX as int
                }),
    {
        proof {
            assert(nodes@.take(i + 1).drop_last() =~= nodes@.take(i as int));
            assert(nodes@.take(i + 1).last() == nodes@[i as int]);
            lemma_max_id_bound(nodes@, i as int);
        }
        let nid = nodes[i].id;
        map.set(nid, i);
        proof {
            assert(forall|id: int|
                0 <= id < map@.len() && id != nid as int ==> resolve(
                    nodes@.take(i + 1),
                    id,
                ) == resolve(nodes@.take(i as int), id));
        }
    }
    proof {
        assert(nodes@.take(n as int) =~= nodes@);
    }
    map
}

/// The traversal outcome from a given identity, defined by the comparison
/// chain: resolve the identity, stop at a leaf, otherwise compare the
/// split feature against the threshold and continue with the left child
/// on at-most, the right child on greater.
pub open spec fn spec_traverse_from(nodes: Seq<TreeNode>, x: Seq<i64>, id: int) -> Result<
    Seq<i64>,
    TreeError,
>
    decreases max_id(nodes) - id
        when 0 <= id <= max_id(nodes)
{
    if resolve(nodes, id) < 0 {
        Err(TreeError::UnmappedId)
    } else {
        let n = nodes[resolve(nodes, id)];
        if n.feature is None {
            if n.value.len() == 0 {
                Err(TreeError::MalformedLeaf)
            } else {
                Ok(n.value[0]@)
            }
        } else if n.threshold is None {
            Err(TreeError::MissingThreshold)
        } else if n.feature->0 >= x.len() {
            Err(TreeError::FeatureOutOfRange)
        } else {
            let child = if x[n.feature->0 as int] <= n.threshold->0 {
                n.left
            } else {
                n.right
            };
            match child {
                Option::None => Err(TreeError::MissingChild),
                Option::Some(c) => {
                    if c as int <= id {
                        Err(TreeError::BackwardChild)
                    } else if c as int > max_id(nodes) {
                        Err(TreeError::UnknownId)
                    } else {
                        spec_traverse_from(nodes, x, c as int)
                    }
                },
            }
        }
    }
}

/// The traversal outcome for the whole tree: the chain starting at the
/// root identity 0.
pub open spec fn spec_traverse(nodes: Seq<TreeNode>, x: Seq<i64>) -> Result<Seq<i64>, TreeError> {
    spec_traverse_from(nodes, x, 0)
}

/// Leaf/split exclusivity and sound references for a single node: a leaf
/// carries a value distribution and nothing else; a split node carries a
/// feature, a threshold and both children, each child pointing strictly
/// forward to an identity present in the table.
pub open spec fn node_ok(nodes: Seq<TreeNode>, n: TreeNode) -> bool {
    if n.feature is None {
        &&& n.threshold is None
        &&& n.left is None
        &&& n.right is None
        &&& n.value.len() >= 1
    } else {
        &&& n.threshold is Some
        &&& n.left is Some
        &&& n.right is Some
        &&& n.id < n.left->0
        &&& n.id < n.right->0
        &&& n.left->0 as int <= max_id(nodes)
        &&& n.right->0 as int <= max_id(nodes)
        &&& resolve(nodes, n.left->0 as int) >= 0
        &&& resolve(nodes, n.right->0 as int) >= 0
    }
}

/// A well-formed tree: nonempty, the root identity resolves, and every
/// node satisfies leaf/split exclusivity with resolvable, strictly
/// forward child references.
pub open spec fn well_formed(nodes: Seq<TreeNode>) -> bool {
    &&& nodes.len() > 0
    &&& resolve(nodes, 0) >= 0
    &&& forall|j: int| 0 <= j < nodes.len() ==> node_ok(nodes, #[trigger] nodes[j])
}

/// Every split feature index of the tree is a valid position in a
/// feature vector of the given length.
pub open spec fn features_in_range(nodes: Seq<TreeNode>, nf: int) -> bool {
    forall|j: int|
        0 <= j < nodes.len() && (#[trigger] nodes[j]).feature is Some ==> nodes[j].feature->0 < nf
}

/// For a well-formed tree whose split features all lie inside the
/// feature vector, traversal from any resolvable identity terminates at
/// a leaf and returns exactly the value distribution stored there.
pub proof fn lemma_well_formed_traverse_ok(nodes: Seq<TreeNode>, x: Seq<i64>, id: int)
    requires
        well_formed(nodes),
        features_in_range(nodes, x.len() as int),
        0 <= id <= max_id(nodes),
        resolve(nodes, id) >= 0,
    ensures
        spec_traverse_from(nodes, x, id) is Ok,
    decreases max_id(nodes) - id,
{
    lemma_resolve_bound(nodes, id);
    let n = nodes[resolve(nodes, id)];
    if n.feature is Some {
        let child = if x[n.feature->0 as int] <= n.threshold->0 {
            n.left->0
        } else {
            n.right->0
        };
        lemma_well_formed_traverse_ok(nodes, x, child as int);
    }
}

/// For a well-formed tree over a covering feature vector, the traversal
/// of the whole tree succeeds.
pub proof fn lemma_well_formed_traverse_root_ok(nodes: Seq<TreeNode>, x: Seq<i64>)
    requires
        well_formed(nodes),
        features_in_range(nodes, x.len() as int),
    ensures
        spec_traverse(nodes, x) is Ok,
{
    lemma_well_formed_traverse_ok(nodes, x, 0);
}

/// An identity resolves exactly when some node carries it.
proof fn lemma_resolve_exists(nodes: Seq<TreeNode>, id: int)
    ensures
        (resolve(nodes, id) >= 0) <==> (exists|j: int|
            0 <= j < nodes.len() && nodes[j].id as int == id),
    decreases nodes.len(),
{
    if nodes.len() > 0 {
        lemma_resolve_exists(nodes.drop_last(), id);
        if nodes.last().id as int == id {
            assert(nodes[nodes.len() - 1].id as int == id);
        } else {
            assert(forall|j: int|
                0 <= j < nodes.len() - 1 ==> nodes.drop_last()[j] == nodes[j]);
        }
    }
}

/// An identity that resolves is bounded by the maximum identity.
proof fn lemma_resolve_le_max(nodes: Seq<TreeNode>, id: int)
    requires
        resolve(nodes, id) >= 0,
    ensures
        id <= max_id(nodes),
{
    lemma_resolve_bound(nodes, id);
    lemma_max_id_bound(nodes, resolve(nodes, id));
}

/// Whether some node of the table carries the given identity.
fn has_id(nodes: &Vec<TreeNode>, id: usize) -> (r: bool)
    ensures
        r == (resolve(nodes@, id as int) >= 0),
{
    proof {
        lemma_resolve_exists(nodes@, id as int);
    }
    let n = nodes.len();
    for j in 0..n
        invariant
            n == nodes@.len(),
            forall|k: int| 0 <= k < j ==> (#[trigger] nodes@[k]).id != id,
    {
        if nodes[j].id == id {
            proof {
                lemma_resolve_exists(nodes@, id as int);
                assert(nodes@[j as int].id as int == id as int);
            }
            return true;
        }
    }
    proof {
        lemma_resolve_exists(nodes@, id as int);
    }
    false
}

/// Checks the whole tree against the structural invariant and the
/// feature bound: the result is true exactly when the tree is well
/// formed and every split feature fits a sample of the given width, the
/// premise under which traversal is guaranteed to reach a leaf.
pub fn check_tree(nodes: &Vec<TreeNode>, num_features: usize) -> (ok: bool)
    ensures
        ok == (well_formed(nodes@) && features_in_range(nodes@, num_features as int)),
{
    let n = nodes.len();
    if n == 0 {
        return false;
    }
    if !has_id(nodes, 0) {
        return false;
    }
    for i in 0..n
        invariant
            n == nodes@.len(),
            resolve(nodes@, 0) >= 0,
            forall|j: int| 0 <= j < i ==> node_ok(nodes@, #[trigger] nodes@[j]),
            forall|j: int|
                0 <= j < i && (#[trigger] nodes@[j]).feature is Some ==> nodes@[j].feature->0
                    < num_features,
    {
        let node = &nodes[i];
        match node.feature {
            Option::None => {
                if node.threshold.is_some() || node.left.is_some() || node.right.is_some()
                    || node.value.len() == 0 {
                    return false;
                }
                proof {
                    assert(node_ok(nodes@, nodes@[i as int]));
                }
            },
            Option::Some(f) => {
                if f >= num_features {
                    return false;
                }
                if node.threshold.is_none() {
                    return false;
                }
                let l = match node.left {
                    Option::Some(l) => l,
                    Option::None => {
                        return false;
                    },
                };
                let r = match node.right {
                    Option::Some(r) => r,
                    Option::None => {
                        return false;
                    },
                };
                if l <= node.id || r <= node.id {
                    return false;
                }
                if !has_id(nodes, l) || !has_id(nodes, r) {
                    return false;
                }
                proof {
                    lemma_resolve_le_max(nodes@, l as int);
                    lemma_resolve_le_max(nodes@, r as int);
                    assert(node_ok(nodes@, nodes@[i as int]));
                }
            },
        }
    }
    true
}

/// Copies one row of scaled values.
fn copy_row(v: &Vec<i64>) -> (r: Vec<i64>)
    ensures
        r@ == v@,
{
    let mut out: Vec<i64> = Vec::new();
    let n = v.len();
    for i in 0..n
        invariant
            n == v@.len(),
            out@ == v@.take(i as int),
    {
        out.push(v[i]);
        proof {
            assert(out@ =~= v@.take(i + 1));
        }
    }
    proof {
        assert(v@.take(n as int) =~= v@);
    }
    out
}

/// Walks the tree from the root, resolving every identity through the
/// prebuilt index, and returns the value distribution of the leaf reached
/// by the comparison chain, or the first structural defect encountered.
pub fn traverse_tree(nodes: &Vec<TreeNode>, id_index: &Vec<usize>, x: &Vec<i64>) -> (r: Result<
    Vec<i64>,
    TreeError,
>)
    requires
        built_index(nodes@, id_index@),
    ensures
        match (r, spec_traverse(nodes@, x@)) {
            (Ok(v), Ok(s)) => v@ == s,
            (Err(e), Err(es)) => e == es,
            _ => false,
        },
        well_formed(nodes@) && features_in_range(nodes@, x@.len() as int) ==> r is Ok,
{
    proof {
        if well_formed(nodes@) && features_in_range(nodes@, x@.len() as int) {
            lemma_well_formed_traverse_root_ok(nodes@, x@);
        }
    }
    let mut current_id: usize = 0;
    loop
        invariant
            built_index(nodes@, id_index@),
            0 <= current_id as int <= max_id(nodes@),
            spec_traverse_from(nodes@, x@, current_id as int) == spec_traverse(nodes@, x@),
            well_formed(nodes@) && features_in_range(nodes@, x@.len() as int) ==> spec_traverse(
                nodes@,
                x@,
            ) is Ok,
        decreases max_id(nodes@) - current_id,
    {
        proof {
            lemma_resolve_bound(nodes@, current_id as int);
        }
        let idx = id_index[current_id];
        if idx == usize::MAX {
            proof {
                assert(id_index@[current_id as int] == usize::MAX);
                assert(nodes.len() == nodes@.len());
                assert(resolve(nodes@, current_id as int) < 0);
                assert(spec_traverse_from(nodes@, x@, current_id as int) == Err::<
                    Seq<i64>,
                    TreeError,
                >(TreeError::UnmappedId));
            }
            return Err(TreeError::UnmappedId);
        }
        let node = &nodes[idx];

        match node.feature {
            Option::None => {
                if node.value.len() == 0 {
                    return Err(TreeError::MalformedLeaf);
                }
                return Ok(copy_row(&node.value[0]));
            },
            Option::Some(feat) => {
                let thr = match node.threshold {
                    Option::None => {
                        return Err(TreeError::MissingThreshold);
                    },
                    Option::Some(t) => t,
                };
                if feat >= x.len() {
                    return Err(TreeError::FeatureOutOfRange);
                }
                let xf = x[feat];
                let child = if xf <= thr {
                    node.left
                } else {
                    node.right
                };
                match child {
                    Option::None => {
                        return Err(TreeError::MissingChild);
                    },
                    Option::Some(c) => {
                        if c <= current_id {
                            return Err(TreeError::BackwardChild);
                        }
                        if c >= id_index.len() {
                            return Err(TreeError::UnknownId);
                        }
                        current_id = c;
                    },
                }
            },
        }
    }
}

} // verus!
