//! The parameter channel: the ordered, positional sequence of typed
//! values written by the orchestrating host and read back by the
//! evaluator before computation begins.
//!
//! The wire carries no field names or tags, so writer and reader must
//! agree on one fixed order: arithmetic mode, model kind, then either
//! (tree source path, tree definition) for the tree kind or (weights,
//! bias) for the regression kinds.  This module gives that protocol an
//! explicit typed form and proves that decoding inverts encoding.

use vstd::prelude::*;
use crate::evaluator::ModelKind;
use crate::evaluator::spec_kind_discriminant;
use crate::evaluator::spec_kind_from_discriminant;
use crate::evaluator::kind_discriminant;
use crate::evaluator::kind_from_discriminant;
use crate::tree::TreeNode;

verus! {

/// One positional value on the parameter channel.
pub enum ChannelValue {
    /// A small control word: the arithmetic mode or the kind discriminant.
    Word(u32),
    /// An ordered sequence of scaled reals: the weight vector.
    Scalars(Vec<i64>),
    /// A single scaled real: the bias.
    Scalar(i64),
    /// Informational text: the tree source path.
    Text(String),
    /// A serialized node table: the tree definition.
    Nodes(Vec<TreeNode>),
}

/// The two arithmetic modes of the evaluator.
#[derive(Clone, Copy, Debug, PartialEq, Eq, Structural)]
pub enum ArithmeticMode {
    /// Native real arithmetic, for reference results.
    Reference,
    /// Fixed-point (scaled-integer) arithmetic, for deterministic results.
    Optimized,
}

/// The wire word of an arithmetic mode (0 = reference, 1 = optimized).
pub open spec fn spec_mode_word(mode: ArithmeticMode) -> u32 {
    match mode {
        ArithmeticMode::Reference => 0,
        ArithmeticMode::Optimized => 1,
    }
}

/// The model carried by one request: regression parameters, or a tree.
pub enum ModelSpec {
    /// A regression-family model: kind tag, weight vector, bias.
    Regression { kind: ModelKind, weights: Vec<i64>, bias: i64 },
    /// A decision tree: its informational source path and its node table.
    Tree { source: String, nodes: Vec<TreeNode> },
}

/// One complete evaluation request as read from the channel.
pub struct EvalRequest {
    pub mode: ArithmeticMode,
    pub model: ModelSpec,
}

/// A malformed parameter payload, reported as a decode failure.
#[derive(Clone, Copy, Debug, PartialEq, Eq, Structural)]
pub enum ChannelError {
    /// The payload does not hold exactly the expected number of values.
    WrongLength,
    /// A position holds a value of the wrong type.
    TypeMismatch,
    /// The arithmetic-mode word is neither 0 nor 1.
    UnknownMode,
    /// The kind discriminant denotes no model kind.
    UnknownModelKind,
}

/// A request is well formed when a regression model carries a regression
/// kind: the tree kind carries no weights or bias.
pub open spec fn request_well_formed(req: EvalRequest) -> bool {
    match req.model {
        ModelSpec::Regression { kind, .. } => kind != ModelKind::Tree,
        ModelSpec::Tree { .. } => true,
    }
}

/// The positional encoding of a request: mode word, kind word, then the
/// kind-dependent pair.
pub open spec fn spec_encode(req: EvalRequest) -> Seq<ChannelValue> {
    match req.model {
        ModelSpec::Regression { kind, weights, bias } => seq![
            ChannelValue::Word(spec_mode_word(req.mode)),
            ChannelValue::Word(spec_kind_discriminant(kind)),
            ChannelValue::Scalars(weights),
            ChannelValue::Scalar(bias),
        ],
        ModelSpec::Tree { source, nodes } => seq![
            ChannelValue::Word(spec_mode_word(req.mode)),
            ChannelValue::Word(spec_kind_discriminant(ModelKind::Tree)),
            ChannelValue::Text(source),
            ChannelValue::Nodes(nodes),
        ],
    }
}

/// The positional decoding of a payload: read the mode word, the kind
/// word, then the two kind-dependent values, each at its fixed position
/// and of its fixed type.
pub open spec fn spec_decode(vals: Seq<ChannelValue>) -> Result<EvalRequest, ChannelError> {
    if vals.len() != 4 {
        Err(ChannelError::WrongLength)
    } else {
        match vals[0] {
            ChannelValue::Word(mw) => {
                if mw != 0 && mw != 1 {
                    Err(ChannelError::UnknownMode)
                } else {
                    let mode = if mw == 0 {
                        ArithmeticMode::Reference
                    } else {
                        ArithmeticMode::Optimized
                    };
                    match vals[1] {
                        ChannelValue::Word(kw) => match spec_kind_from_discriminant(kw) {
                            Option::None => Err(ChannelError::UnknownModelKind),
                            Option::Some(kind) => {
                                if kind == ModelKind::Tree {
                                    match (vals[2], vals[3]) {
                                        (
                                            ChannelValue::Text(source),
                                            ChannelValue::Nodes(nodes),
                                        ) => Ok(
                                            EvalRequest {
                                                mode,
                                                model: ModelSpec::Tree { source, nodes },
                                            },
                                        ),
                                        _ => Err(ChannelError::TypeMismatch),
                                    }
                                } else {
                                    match (vals[2], vals[3]) {
                                        (
                                            ChannelValue::Scalars(weights),
                                            ChannelValue::Scalar(bias),
                                        ) => Ok(
                                            EvalRequest {
                                                mode,
                                                model: ModelSpec::Regression {
                                                    kind,
                                                    weights,
                                                    bias,
                                                },
                                            },
                                        ),
                                        _ => Err(ChannelError::TypeMismatch),
                                    }
                                }
                            },
                        },
                        _ => Err(ChannelError::TypeMismatch),
                    }
                }
            },
            _ => Err(ChannelError::TypeMismatch),
        }
    }
}

/// Decoding inverts encoding: a well-formed request read back from its
/// own payload is returned unchanged.
pub proof fn lemma_channel_round_trip(req: EvalRequest)
    requires
        request_well_formed(req),
    ensures
        spec_decode(spec_encode(req)) == Ok::<EvalRequest, ChannelError>(req),
{
}

/// Writes one request into its positional payload.
pub fn encode_params(req: EvalRequest) -> (r: Vec<ChannelValue>)
    ensures
        r@ == spec_encode(req),
{
    let EvalRequest { mode, model } = req;
    let mode_word: u32 = match mode {
        ArithmeticMode::Reference => 0,
        ArithmeticMode::Optimized => 1,
    };
    match model {
        ModelSpec::Regression { kind, weights, bias } => {
            let kind_word = kind_discriminant(kind);
            let r: Vec<ChannelValue> = vec![
                ChannelValue::Word(mode_word),
                ChannelValue::Word(kind_word),
                ChannelValue::Scalars(weights),
                ChannelValue::Scalar(bias),
            ];
            r
        },
        ModelSpec::Tree { source, nodes } => {
            let kind_word = kind_discriminant(ModelKind::Tree);
            let r: Vec<ChannelValue> = vec![
                ChannelValue::Word(mode_word),
                ChannelValue::Word(kind_word),
                ChannelValue::Text(source),
                ChannelValue::Nodes(nodes),
            ];
            r
        },
    }
}

/// Reads one request back from a positional payload, checking position
/// by position that the value has the expected type and meaning.
pub fn decode_params(vals: Vec<ChannelValue>) -> (r: Result<EvalRequest, ChannelError>)
    ensures
        r == spec_decode(vals@),
{
    let mut vals = vals;
    if vals.len() != 4 {
        return Err(ChannelError::WrongLength);
    }
    let v3 = vals.pop().unwrap();
    let v2 = vals.pop().unwrap();
    let v1 = vals.pop().unwrap();
    let v0 = vals.pop().unwrap();
    let mode = match v0 {
        ChannelValue::Word(mw) => {
            if mw == 0 {
                ArithmeticMode::Reference
            } else if mw == 1 {
                ArithmeticMode::Optimized
            } else {
                return Err(ChannelError::UnknownMode);
            }
        },
        _ => {
            return Err(ChannelError::TypeMismatch);
        },
    };
    let kind = match v1 {
        ChannelValue::Word(kw) => match kind_from_discriminant(kw) {
            Option::Some(k) => k,
            Option::None => {
                return Err(ChannelError::UnknownModelKind);
            },
        },
        _ => {
            return Err(ChannelError::TypeMismatch);
        },
    };
    match kind {
        ModelKind::Tree => match (v2, v3) {
            (ChannelValue::Text(source), ChannelValue::Nodes(nodes)) => Ok(
                EvalRequest { mode, model: ModelSpec::Tree { source, nodes } },
            ),
            _ => Err(ChannelError::TypeMismatch),
        },
        _ => match (v2, v3) {
            (ChannelValue::Scalars(weights), ChannelValue::Scalar(bias)) => Ok(
                EvalRequest { mode, model: ModelSpec::Regression { kind, weights, bias } },
            ),
            _ => Err(ChannelError::TypeMismatch),
        },
    }
}

} // verus!
