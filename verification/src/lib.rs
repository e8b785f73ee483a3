//! Deterministic dual-precision model evaluator core.
//!
//! Predictive models (linear, multiple-linear, polynomial, logistic,
//! decision-tree) are evaluated over a fixed dataset inside a
//! verifiable-execution boundary.  Because floating point is not portable
//! across proving backends, the optimized evaluation path works on
//! scaled 64-bit integers with a fixed scale factor of 2^16; this crate
//! holds that fixed-point arithmetic, the model evaluators, the
//! decision-tree engine, and the marshaling contracts around them.

pub mod channel;
pub mod config;
pub mod dataset;
pub mod evaluator;
pub mod fixed;
pub mod journal;
pub mod models;
pub mod tree;
