//! The built-in datasets evaluated inside the verifiable-execution
//! boundary, in scaled-integer form.
//!
//! Every real number of the datasets is represented exactly as its
//! nearest scaled integer (value times 2^16, rounded to nearest, ties
//! away from zero).

use vstd::prelude::*;
use crate::tree::Sample;

verus! {

/// The regression dataset: four samples of three features each, with a
/// scalar target.  The real values (2.0, 2.0, 3.0) → 14.0 and so on
/// appear here multiplied by the scale factor.
pub fn get_dataset() -> (r: Vec<(Vec<i64>, i64)>)
    ensures
        r@.len() == 4,
        r@[0].0@ == seq![131072i64, 131072i64, 196608i64],
        r@[0].1 == 917504i64,
        r@[1].0@ == seq![131072i64, 196608i64, 262144i64],
        r@[1].1 == 1310720i64,
        r@[2].0@ == seq![196608i64, 262144i64, 327680i64],
        r@[2].1 == 1703936i64,
        r@[3].0@ == seq![262144i64, 327680i64, 393216i64],
        r@[3].1 == 2097152i64,
        forall|i: int| 0 <= i < 4 ==> (#[trigger] r@[i]).0@.len() == 3,
{
    let d0: Vec<i64> = vec![131072, 131072, 196608];
    let d1: Vec<i64> = vec![131072, 196608, 262144];
    let d2: Vec<i64> = vec![196608, 262144, 327680];
    let d3: Vec<i64> = vec![262144, 327680, 393216];
    let r: Vec<(Vec<i64>, i64)> = vec![
        (d0, 917504),
        (d1, 1310720),
        (d2, 1703936),
        (d3, 2097152),
    ];
    r
}

/// The classification dataset for the tree model: five samples of four
/// features each, with an expected class index.  Feature values such as
/// 5.1 appear as their nearest scaled integer (334234).
pub fn get_dataset_tree() -> (r: Vec<Sample>)
    ensures
        r@.len() == 5,
        r@[0].features@ == seq![334234i64, 229376i64, 91750i64, 13107i64],
        r@[0].expected == 0u32,
        r@[1].features@ == seq![321126i64, 196608i64, 91750i64, 13107i64],
        r@[1].expected == 0u32,
        r@[2].features@ == seq![393216i64, 144179i64, 262144i64, 65536i64],
        r@[2].expected == 1u32,
        r@[3].features@ == seq![386662i64, 196608i64, 334234i64, 117965i64],
        r@[3].expected == 2u32,
        r@[4].features@ == seq![425984i64, 196608i64, 340787i64, 131072i64],
        r@[4].expected == 2u32,
        forall|i: int| 0 <= i < 5 ==> (#[trigger] r@[i]).features@.len() == 4,
{
    let r: Vec<Sample> = vec![
        Sample { features: vec![334234, 229376, 91750, 13107], expected: 0 },
        Sample { features: vec![321126, 196608, 91750, 13107], expected: 0 },
        Sample { features: vec![393216, 144179, 262144, 65536], expected: 1 },
        Sample { features: vec![386662, 196608, 334234, 117965], expected: 2 },
        Sample { features: vec![425984, 196608, 340787, 131072], expected: 2 },
    ];
    r
}

} // verus!
