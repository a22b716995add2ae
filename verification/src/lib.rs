//! A peer node for computing mathematical sequences.
//!
//! Each node evaluates named, possibly nested sequence expressions over an
//! index range, and cooperates with sibling nodes to answer requests for
//! operators it does not implement itself.

mod algebra;
mod eval;
mod manifest;
mod range;
mod rational;
mod router;
mod syntax;

pub use algebra::{lemma_smoothed_constant, Expr, Op};
pub use eval::{evaluate, EvalError};
pub use manifest::{sequences, evaluate_supported, SequenceInfo};
pub use range::Range;
pub use router::{get_project, handle_request, plan_delegation, Delegation, Project, RequestOutcome, NODE_PORT};
pub use rational::Rat;
pub use syntax::{interpret, InterpError, SequenceRequest, SequenceSyntax};
