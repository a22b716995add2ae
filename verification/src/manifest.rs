//! The capability manifest.
//!
//! A static, per-node list of the operators the node evaluates locally,
//! each with its declared parameter and child arity. [`sequences`] builds
//! this node's manifest: every operator of the algebra, in a fixed order,
//! with exactly the arities the algebra declares.

use vstd::prelude::*;
use crate::algebra::{Expr, Op, child_arity, op_name, param_arity};
use crate::eval::{EvalError, eval_fits, evaluate, results_match};
use crate::range::Range;
use crate::rational::Rat;

verus! {

/// One manifest entry: an operator this node can evaluate, its prose
/// description, and its declared arities.
#[derive(Debug)]
pub struct SequenceInfo {
    pub name: String,
    pub description: String,
    pub parameters: u32,
    pub sequences: u32,
}

/// The operator listed at position `i` of this node's manifest.
pub open spec fn manifest_op(i: int) -> Op {
    if i == 0 {
        Op::Arithmetic
    } else if i == 1 {
        Op::Geometric
    } else if i == 2 {
        Op::Constant
    } else if i == 3 {
        Op::Sum
    } else if i == 4 {
        Op::Prod
    } else if i == 5 {
        Op::Drop
    } else if i == 6 {
        Op::LinComb
    } else if i == 7 {
        Op::Recursive
    } else if i == 8 {
        Op::Average
    } else if i == 9 {
        Op::Cyclic
    } else if i == 10 {
        Op::Alternating
    } else {
        Op::Smoothed
    }
}

/// The description shown for the operator at position `i` of this node's
/// manifest.
pub open spec fn manifest_description(i: int) -> Seq<char> {
    if i == 0 {
        "Arithmetic sequence"@
    } else if i == 1 {
        "Geometric sequence"@
    } else if i == 2 {
        "Constant sequence"@
    } else if i == 3 {
        "Element-wise sum of two sequences"@
    } else if i == 4 {
        "Element-wise product of two sequences"@
    } else if i == 5 {
        "Drops the first n elements of a sequence"@
    } else if i == 6 {
        "Linear combination of two sequences"@
    } else if i == 7 {
        "Recursive sequence of the form x(n) = ax(n-1) + bx(n-2)"@
    } else if i == 8 {
        "Element-wise average of two given sequences"@
    } else if i == 9 {
        "Sequence that cycles over a specified number of starting terms of another sequence"@
    } else if i == 10 {
        "Sequence where the sign of each element alternates based on its index."@
    } else {
        "Sequence where each element is the average of itself and its immediate neighbors"@
    }
}

/// The manifest `m` advertises an entry named `n`.
pub open spec fn manifest_advertises(m: Seq<SequenceInfo>, n: Seq<char>) -> bool {
    exists|i: int| 0 <= i < m.len() && (#[trigger] m[i]).name@ == n
}

/// The manifest `m` advertises operator `op` under its wire name.
pub open spec fn manifest_supports(m: Seq<SequenceInfo>, op: Op) -> bool {
    manifest_advertises(m, op_name(op))
}

/// Every operator of `e`, at every node of the tree, is advertised by `m`.
pub open spec fn tree_supported(m: Seq<SequenceInfo>, e: Expr) -> bool
    decreases e,
{
    &&& manifest_supports(m, e.op())
    &&& match e {
        Expr::Sum { left, right } => tree_supported(m, *left) && tree_supported(m, *right),
        Expr::Prod { left, right } => tree_supported(m, *left) && tree_supported(m, *right),
        Expr::Average { left, right } => tree_supported(m, *left) && tree_supported(m, *right),
        Expr::LinComb { left, right, .. } => tree_supported(m, *left) && tree_supported(
            m,
            *right,
        ),
        Expr::Drop { child, .. } => tree_supported(m, *child),
        Expr::Cyclic { child, .. } => tree_supported(m, *child),
        Expr::Alternating { child } => tree_supported(m, *child),
        Expr::Smoothed { child } => tree_supported(m, *child),
        _ => true,
    }
}

fn push_info(out: &mut Vec<SequenceInfo>, op: Op, description: &str)
    ensures
        final(out)@.len() == old(out)@.len() + 1,
        final(out)@ =~= old(out)@.push(final(out)@.last()),
        final(out)@.last().name@ == op_name(op),
        final(out)@.last().description@ == description@,
        final(out)@.last().parameters == param_arity(op),
        final(out)@.last().sequences == child_arity(op),
{
    let info = SequenceInfo {
        name: op.name_string(),
        description: String::from_str(description),
        parameters: op.parameter_arity(),
        sequences: op.sequence_arity(),
    };
    out.push(info);
}

/// This node's capability manifest: every operator of the closed algebra,
/// in a fixed order, each under its wire name with its declared arities.
pub fn sequences() -> (r: Vec<SequenceInfo>)
    ensures
        r@.len() == 12,
        forall|i: int|
            0 <= i < 12 ==> (#[trigger] r@[i]).name@ == op_name(manifest_op(i))
                && r@[i].description@ == manifest_description(i) && r@[i].parameters
                == param_arity(manifest_op(i)) && r@[i].sequences == child_arity(manifest_op(i)),
        forall|op: Op| manifest_supports(r@, op),
{
    let mut out: Vec<SequenceInfo> = Vec::new();
    push_info(&mut out, Op::Arithmetic, "Arithmetic sequence");
    push_info(&mut out, Op::Geometric, "Geometric sequence");
    push_info(&mut out, Op::Constant, "Constant sequence");
    push_info(&mut out, Op::Sum, "Element-wise sum of two sequences");
    push_info(&mut out, Op::Prod, "Element-wise product of two sequences");
    push_info(&mut out, Op::Drop, "Drops the first n elements of a sequence");
    push_info(&mut out, Op::LinComb, "Linear combination of two sequences");
    push_info(&mut out, Op::Recursive, "Recursive sequence of the form x(n) = ax(n-1) + bx(n-2)");
    push_info(&mut out, Op::Average, "Element-wise average of two given sequences");
    push_info(
        &mut out,
        Op::Cyclic,
        "Sequence that cycles over a specified number of starting terms of another sequence",
    );
    push_info(
        &mut out,
        Op::Alternating,
        "Sequence where the sign of each element alternates based on its index.",
    );
    push_info(
        &mut out,
        Op::Smoothed,
        "Sequence where each element is the average of itself and its immediate neighbors",
    );
    proof {
        assert forall|op: Op| manifest_supports(out@, op) by {
            match op {
                Op::Arithmetic => assert(out@[0].name@ == op_name(op)),
                Op::Geometric => assert(out@[1].name@ == op_name(op)),
                Op::Constant => assert(out@[2].name@ == op_name(op)),
                Op::Sum => assert(out@[3].name@ == op_name(op)),
                Op::Prod => assert(out@[4].name@ == op_name(op)),
                Op::Drop => assert(out@[5].name@ == op_name(op)),
                Op::LinComb => assert(out@[6].name@ == op_name(op)),
                Op::Recursive => assert(out@[7].name@ == op_name(op)),
                Op::Average => assert(out@[8].name@ == op_name(op)),
                Op::Cyclic => assert(out@[9].name@ == op_name(op)),
                Op::Alternating => assert(out@[10].name@ == op_name(op)),
                Op::Smoothed => assert(out@[11].name@ == op_name(op)),
            }
        }
    }
    out
}

/// Whether the manifest advertises an entry with exactly this name.
pub fn advertises(m: &Vec<SequenceInfo>, name: &String) -> (r: bool)
    ensures
        r == manifest_advertises(m@, name@),
{
    let n = m.len();
    let mut i: usize = 0;
    while i < n
        invariant
            i <= n,
            n == m@.len(),
            forall|j: int| 0 <= j < i ==> (#[trigger] m@[j]).name@ != name@,
        decreases n - i,
    {
        if m[i].name == *name {
            return true;
        }
        i += 1;
    }
    false
}

/// Whether the manifest advertises the operator under its wire name.
pub fn supports(m: &Vec<SequenceInfo>, op: Op) -> (r: bool)
    ensures
        r == manifest_supports(m@, op),
{
    let name = op.name_string();
    advertises(m, &name)
}

/// Whether every operator of the tree is advertised by the manifest.
pub fn supports_tree(m: &Vec<SequenceInfo>, e: &Expr) -> (r: bool)
    ensures
        r == tree_supported(m@, *e),
    decreases *e,
{
    let root = match e {
        Expr::Arithmetic { .. } => Op::Arithmetic,
        Expr::Geometric { .. } => Op::Geometric,
        Expr::Constant { .. } => Op::Constant,
        Expr::Recursive { .. } => Op::Recursive,
        Expr::Sum { .. } => Op::Sum,
        Expr::Prod { .. } => Op::Prod,
        Expr::Average { .. } => Op::Average,
        Expr::LinComb { .. } => Op::LinComb,
        Expr::Drop { .. } => Op::Drop,
        Expr::Cyclic { .. } => Op::Cyclic,
        Expr::Alternating { .. } => Op::Alternating,
        Expr::Smoothed { .. } => Op::Smoothed,
    };
    if !supports(m, root) {
        return false;
    }
    match e {
        Expr::Sum { left, right } => supports_tree(m, left) && supports_tree(m, right),
        Expr::Prod { left, right } => supports_tree(m, left) && supports_tree(m, right),
        Expr::Average { left, right } => supports_tree(m, left) && supports_tree(m, right),
        Expr::LinComb { left, right, .. } => supports_tree(m, left) && supports_tree(m, right),
        Expr::Drop { child, .. } => supports_tree(m, child),
        Expr::Cyclic { child, .. } => supports_tree(m, child),
        Expr::Alternating { child } => supports_tree(m, child),
        Expr::Smoothed { child } => supports_tree(m, child),
        _ => true,
    }
}

/// Evaluates `e` over `r` after checking that every operator of the tree is
/// in this node's manifest; an absent operator is reported as unsupported,
/// the condition that triggers delegation rather than evaluation failure.
pub fn evaluate_supported(m: &Vec<SequenceInfo>, e: &Expr, r: &Range) -> (res: Result<
    Vec<Rat>,
    EvalError,
>)
    requires
        e.wf(),
        r.wf(),
    ensures
        res matches Ok(v) ==> results_match(v@, *e, *r),
        res is Ok <==> tree_supported(m@, *e) && eval_fits(*e, *r),
        res matches Err(err) ==> (err == EvalError::UnsupportedOperator <==> !tree_supported(
            m@,
            *e,
        )),
{
    if !supports_tree(m, e) {
        return Err(EvalError::UnsupportedOperator);
    }
    evaluate(e, r)
}

} // verus!
