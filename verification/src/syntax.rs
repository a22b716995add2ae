//! Wire-level expression descriptions and their interpretation.
//!
//! A request arrives as an operator name, a flat parameter list and an
//! ordered list of child descriptions. [`interpret`] validates every node —
//! the name must belong to the closed algebra and the parameter and child
//! counts must match the operator's declared arities — and builds the
//! expression tree, or reports a violation naming the offending operator.

use vstd::prelude::*;
use crate::algebra::{
    Expr, Op, child_arity, op_name, param_arity, spec_op_of_name,
};
use crate::range::Range;
use crate::rational::{Rat, rat_trunc};

verus! {

/// One node of a wire-level expression description.
#[derive(Debug)]
pub struct SequenceSyntax {
    pub name: String,
    pub parameters: Vec<Rat>,
    pub sequences: Vec<Box<SequenceSyntax>>,
}

/// The body of an evaluation request: the index range, and the parameters
/// and children of the top-level operator named by the request path.
#[derive(Debug)]
pub struct SequenceRequest {
    pub range: Range,
    pub parameters: Vec<Rat>,
    pub sequences: Vec<Box<SequenceSyntax>>,
}

/// Why a description was rejected.
#[derive(Debug)]
pub enum InterpError {
    /// The name belongs to no operator of the closed algebra.
    UnknownOperator { name: String },
    /// An operator was given the wrong number of parameters or children.
    ArityMismatch {
        operator: String,
        expected_parameters: u32,
        actual_parameters: usize,
        expected_children: u32,
        actual_children: usize,
    },
    /// A cycle length truncated to zero; a positive period is required.
    InvalidPeriod { operator: String },
}

/// All rational parameters of the description, at every node, have positive
/// denominators.
pub open spec fn syntax_wf(s: SequenceSyntax) -> bool
    decreases s,
{
    &&& forall|i: int| 0 <= i < s.parameters@.len() ==> (#[trigger] s.parameters@[i]).wf()
    &&& forall|i: int| 0 <= i < s.sequences@.len() ==> syntax_wf(*(#[trigger] s.sequences@[i]))
}

/// The description is valid: every node names a known operator, carries
/// exactly the declared number of parameters and children, and every cycle
/// length is positive.
pub open spec fn syntax_valid(s: SequenceSyntax) -> bool
    decreases s,
{
    match spec_op_of_name(s.name@) {
        Option::None => false,
        Option::Some(op) => {
            &&& s.parameters@.len() == param_arity(op)
            &&& s.sequences@.len() == child_arity(op)
            &&& (op == Op::Cyclic ==> rat_trunc(s.parameters@[0]@) >= 1)
            &&& forall|i: int|
                0 <= i < s.sequences@.len() ==> syntax_valid(*(#[trigger] s.sequences@[i]))
        },
    }
}

/// `e` is the expression tree described by `s`: the same operator at every
/// node, with the parameters read in declaration order.
pub open spec fn expr_matches(e: Expr, s: SequenceSyntax) -> bool
    decreases e,
{
    match spec_op_of_name(s.name@) {
        Option::None => false,
        Option::Some(op) => match op {
            Op::Arithmetic => e matches Expr::Arithmetic { start, step } && start
                == s.parameters@[0] && step == s.parameters@[1],
            Op::Geometric => e matches Expr::Geometric { start, factor } && start
                == s.parameters@[0] && factor == s.parameters@[1],
            Op::Constant => e matches Expr::Constant { value } && value == s.parameters@[0],
            Op::Recursive => e matches Expr::Recursive { x0, x1, a, b } && x0 == s.parameters@[0]
                && x1 == s.parameters@[1] && a == s.parameters@[2] && b == s.parameters@[3],
            Op::Sum => e matches Expr::Sum { left, right } && expr_matches(
                *left,
                *s.sequences@[0],
            ) && expr_matches(*right, *s.sequences@[1]),
            Op::Prod => e matches Expr::Prod { left, right } && expr_matches(
                *left,
                *s.sequences@[0],
            ) && expr_matches(*right, *s.sequences@[1]),
            Op::Average => e matches Expr::Average { left, right } && expr_matches(
                *left,
                *s.sequences@[0],
            ) && expr_matches(*right, *s.sequences@[1]),
            Op::LinComb => e matches Expr::LinComb { a, b, c, left, right } && a
                == s.parameters@[0] && b == s.parameters@[1] && c == s.parameters@[2]
                && expr_matches(*left, *s.sequences@[0]) && expr_matches(
                *right,
                *s.sequences@[1],
            ),
            Op::Drop => e matches Expr::Drop { n, child } && n as int == rat_trunc(
                s.parameters@[0]@,
            ) && expr_matches(*child, *s.sequences@[0]),
            Op::Cyclic => e matches Expr::Cyclic { period, child } && period as int == rat_trunc(
                s.parameters@[0]@,
            ) && expr_matches(*child, *s.sequences@[0]),
            Op::Alternating => e matches Expr::Alternating { child } && expr_matches(
                *child,
                *s.sequences@[0],
            ),
            Op::Smoothed => e matches Expr::Smoothed { child } && expr_matches(
                *child,
                *s.sequences@[0],
            ),
        },
    }
}

/// `err` reports a violation that node `s` itself exhibits.
pub open spec fn local_error(s: SequenceSyntax, err: InterpError) -> bool {
    match spec_op_of_name(s.name@) {
        Option::None => err matches InterpError::UnknownOperator { name } && name@ == s.name@,
        Option::Some(op) => {
            ||| {
                &&& (s.parameters@.len() != param_arity(op) || s.sequences@.len() != child_arity(
                    op,
                ))
                &&& err matches InterpError::ArityMismatch {
                    operator,
                    expected_parameters,
                    actual_parameters,
                    expected_children,
                    actual_children,
                } && operator@ == s.name@ && expected_parameters == param_arity(op)
                    && actual_parameters == s.parameters@.len() && expected_children == child_arity(
                    op,
                ) && actual_children == s.sequences@.len()
            }
            ||| {
                &&& op == Op::Cyclic
                &&& s.parameters@.len() == param_arity(op)
                &&& rat_trunc(s.parameters@[0]@) < 1
                &&& err matches InterpError::InvalidPeriod { operator } && operator@ == s.name@
            }
        },
    }
}

/// The node `s` itself exhibits a violation: an unknown name, a wrong
/// arity, or a cycle length that truncates below one.
pub open spec fn has_local_error(s: SequenceSyntax) -> bool {
    match spec_op_of_name(s.name@) {
        Option::None => true,
        Option::Some(op) => {
            ||| s.parameters@.len() != param_arity(op)
            ||| s.sequences@.len() != child_arity(op)
            ||| (op == Op::Cyclic && rat_trunc(s.parameters@[0]@) < 1)
        },
    }
}

/// `err` reports a violation that some node of the description exhibits.
pub open spec fn node_error(s: SequenceSyntax, err: InterpError) -> bool
    decreases s,
{
    ||| local_error(s, err)
    ||| exists|i: int|
        0 <= i < s.sequences@.len() && node_error(*(#[trigger] s.sequences@[i]), err)
}

/// Builds the expression tree a description denotes, validating every node
/// against its operator's declared arities first.
pub fn interpret(s: &SequenceSyntax) -> (res: Result<Expr, InterpError>)
    requires
        syntax_wf(*s),
    ensures
        res is Ok <==> syntax_valid(*s),
        res matches Ok(e) ==> e.wf() && expr_matches(e, *s),
        res matches Err(err) ==> node_error(*s, err),
        res matches Err(err) ==> (has_local_error(*s) ==> local_error(*s, err)),
    decreases *s, 1int,
{
    interpret_parts(&s.name, &s.parameters, &s.sequences, Ghost(*s))
}

/// The body of [`interpret`], shared with request handling, where the
/// operator name arrives separately from the parameter and child lists.
pub fn interpret_parts(
    name: &String,
    parameters: &Vec<Rat>,
    sequences: &Vec<Box<SequenceSyntax>>,
    Ghost(s): Ghost<SequenceSyntax>,
) -> (res: Result<Expr, InterpError>)
    requires
        syntax_wf(s),
        name@ == s.name@,
        parameters@ == s.parameters@,
        sequences@ == s.sequences@,
    ensures
        res is Ok <==> syntax_valid(s),
        res matches Ok(e) ==> e.wf() && expr_matches(e, s),
        res matches Err(err) ==> node_error(s, err),
        res matches Err(err) ==> (has_local_error(s) ==> local_error(s, err)),
    decreases s, 0int,
{
    let op = match Op::from_name(name) {
        Some(op) => op,
        None => {
            return Err(InterpError::UnknownOperator { name: name.clone() });
        },
    };
    let expected_parameters = op.parameter_arity();
    let expected_children = op.sequence_arity();
    if parameters.len() != expected_parameters as usize
        || sequences.len() != expected_children as usize {
        return Err(InterpError::ArityMismatch {
            operator: name.clone(),
            expected_parameters,
            actual_parameters: parameters.len(),
            expected_children,
            actual_children: sequences.len(),
        });
    }
    match op {
        Op::Arithmetic => Ok(Expr::Arithmetic { start: parameters[0], step: parameters[1] }),
        Op::Geometric => Ok(Expr::Geometric { start: parameters[0], factor: parameters[1] }),
        Op::Constant => Ok(Expr::Constant { value: parameters[0] }),
        Op::Recursive => Ok(
            Expr::Recursive {
                x0: parameters[0],
                x1: parameters[1],
                a: parameters[2],
                b: parameters[3],
            },
        ),
        Op::Sum => {
            let left = match interpret(&sequences[0]) {
                Ok(e) => e,
                Err(err) => {
                    return Err(err);
                },
            };
            let right = match interpret(&sequences[1]) {
                Ok(e) => e,
                Err(err) => {
                    return Err(err);
                },
            };
            Ok(Expr::Sum { left: Box::new(left), right: Box::new(right) })
        },
        Op::Prod => {
            let left = match interpret(&sequences[0]) {
                Ok(e) => e,
                Err(err) => {
                    return Err(err);
                },
            };
            let right = match interpret(&sequences[1]) {
                Ok(e) => e,
                Err(err) => {
                    return Err(err);
                },
            };
            Ok(Expr::Prod { left: Box::new(left), right: Box::new(right) })
        },
        Op::Average => {
            let left = match interpret(&sequences[0]) {
                Ok(e) => e,
                Err(err) => {
                    return Err(err);
                },
            };
            let right = match interpret(&sequences[1]) {
                Ok(e) => e,
                Err(err) => {
                    return Err(err);
                },
            };
            Ok(Expr::Average { left: Box::new(left), right: Box::new(right) })
        },
        Op::LinComb => {
            let left = match interpret(&sequences[0]) {
                Ok(e) => e,
                Err(err) => {
                    return Err(err);
                },
            };
            let right = match interpret(&sequences[1]) {
                Ok(e) => e,
                Err(err) => {
                    return Err(err);
                },
            };
            Ok(
                Expr::LinComb {
                    a: parameters[0],
                    b: parameters[1],
                    c: parameters[2],
                    left: Box::new(left),
                    right: Box::new(right),
                },
            )
        },
        Op::Drop => {
            let n = parameters[0].trunc_to_u64();
            let child = match interpret(&sequences[0]) {
                Ok(e) => e,
                Err(err) => {
                    return Err(err);
                },
            };
            Ok(Expr::Drop { n, child: Box::new(child) })
        },
        Op::Cyclic => {
            let period = parameters[0].trunc_to_u64();
            if period == 0 {
                return Err(InterpError::InvalidPeriod { operator: name.clone() });
            }
            let child = match interpret(&sequences[0]) {
                Ok(e) => e,
                Err(err) => {
                    return Err(err);
                },
            };
            Ok(Expr::Cyclic { period, child: Box::new(child) })
        },
        Op::Alternating => {
            let child = match interpret(&sequences[0]) {
                Ok(e) => e,
                Err(err) => {
                    return Err(err);
                },
            };
            Ok(Expr::Alternating { child: Box::new(child) })
        },
        Op::Smoothed => {
            let child = match interpret(&sequences[0]) {
                Ok(e) => e,
                Err(err) => {
                    return Err(err);
                },
            };
            Ok(Expr::Smoothed { child: Box::new(child) })
        },
    }
}

/// Two trees matching the same description are equal: the description pins
/// the tree down.
pub proof fn lemma_expr_matches_unique(e1: Expr, e2: Expr, s: SequenceSyntax)
    requires
        expr_matches(e1, s),
        expr_matches(e2, s),
    ensures
        e1 == e2,
    decreases e1,
{
    match spec_op_of_name(s.name@) {
        Option::None => {},
        Option::Some(op) => match op {
            Op::Sum => {
                if let (Expr::Sum { left: l1, right: r1 }, Expr::Sum { left: l2, right: r2 }) = (
                    e1,
                    e2,
                ) {
                    lemma_expr_matches_unique(*l1, *l2, *s.sequences@[0]);
                    lemma_expr_matches_unique(*r1, *r2, *s.sequences@[1]);
                }
            },
            Op::Prod => {
                if let (Expr::Prod { left: l1, right: r1 }, Expr::Prod { left: l2, right: r2 }) = (
                    e1,
                    e2,
                ) {
                    lemma_expr_matches_unique(*l1, *l2, *s.sequences@[0]);
                    lemma_expr_matches_unique(*r1, *r2, *s.sequences@[1]);
                }
            },
            Op::Average => {
                if let (
                    Expr::Average { left: l1, right: r1 },
                    Expr::Average { left: l2, right: r2 },
                ) = (e1, e2) {
                    lemma_expr_matches_unique(*l1, *l2, *s.sequences@[0]);
                    lemma_expr_matches_unique(*r1, *r2, *s.sequences@[1]);
                }
            },
            Op::LinComb => {
                if let (
                    Expr::LinComb { left: l1, right: r1, .. },
                    Expr::LinComb { left: l2, right: r2, .. },
                ) = (e1, e2) {
                    lemma_expr_matches_unique(*l1, *l2, *s.sequences@[0]);
                    lemma_expr_matches_unique(*r1, *r2, *s.sequences@[1]);
                }
            },
            Op::Drop => {
                if let (Expr::Drop { child: c1, .. }, Expr::Drop { child: c2, .. }) = (e1, e2) {
                    lemma_expr_matches_unique(*c1, *c2, *s.sequences@[0]);
                }
            },
            Op::Cyclic => {
                if let (Expr::Cyclic { child: c1, .. }, Expr::Cyclic { child: c2, .. }) = (
                    e1,
                    e2,
                ) {
                    lemma_expr_matches_unique(*c1, *c2, *s.sequences@[0]);
                }
            },
            Op::Alternating => {
                if let (Expr::Alternating { child: c1 }, Expr::Alternating { child: c2 }) = (
                    e1,
                    e2,
                ) {
                    lemma_expr_matches_unique(*c1, *c2, *s.sequences@[0]);
                }
            },
            Op::Smoothed => {
                if let (Expr::Smoothed { child: c1 }, Expr::Smoothed { child: c2 }) = (e1, e2) {
                    lemma_expr_matches_unique(*c1, *c2, *s.sequences@[0]);
                }
            },
            _ => {},
        },
    }
}

/// The tree a valid description denotes.
pub open spec fn denoted_expr(s: SequenceSyntax) -> Expr {
    choose|e: Expr| expr_matches(e, s)
}

/// Whatever tree matches the description is the denoted one.
pub proof fn lemma_denoted_expr(e: Expr, s: SequenceSyntax)
    requires
        expr_matches(e, s),
    ensures
        denoted_expr(s) == e,
{
    let w = denoted_expr(s);
    assert(expr_matches(w, s));
    lemma_expr_matches_unique(w, e, s);
}

} // verus!
