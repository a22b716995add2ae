//! The sequence algebra.
//!
//! A fixed, closed set of operators, each with a declared parameter and
//! child arity, and the mathematical value of every expression tree at every
//! index. The value semantics here is purely specification-level; the
//! evaluation engine is proved against it.

use vstd::prelude::*;
use crate::rational::{Rat, rat_add, rat_div_int, rat_eq, rat_mul, rat_neg, rat_of_int, rat_wf};

verus! {

/// One operator of the closed algebra.
#[derive(Clone, Copy, Debug, PartialEq, Eq, Structural)]
pub enum Op {
    Arithmetic,
    Geometric,
    Constant,
    Recursive,
    Sum,
    Prod,
    Average,
    LinComb,
    Drop,
    Cyclic,
    Alternating,
    Smoothed,
}

/// The wire name of an operator.
pub open spec fn op_name(op: Op) -> Seq<char> {
    match op {
        Op::Arithmetic => "Arithmetic"@,
        Op::Geometric => "Geometric"@,
        Op::Constant => "Constant"@,
        Op::Recursive => "Recursive"@,
        Op::Sum => "Sum"@,
        Op::Prod => "Prod"@,
        Op::Average => "Average"@,
        Op::LinComb => "LinComb"@,
        Op::Drop => "Drop"@,
        Op::Cyclic => "Cyclic"@,
        Op::Alternating => "Alternating"@,
        Op::Smoothed => "Smoothed"@,
    }
}

/// The operator a wire name denotes, if any: names are matched exactly.
pub open spec fn spec_op_of_name(n: Seq<char>) -> Option<Op> {
    if n == op_name(Op::Arithmetic) {
        Some(Op::Arithmetic)
    } else if n == op_name(Op::Geometric) {
        Some(Op::Geometric)
    } else if n == op_name(Op::Constant) {
        Some(Op::Constant)
    } else if n == op_name(Op::Recursive) {
        Some(Op::Recursive)
    } else if n == op_name(Op::Sum) {
        Some(Op::Sum)
    } else if n == op_name(Op::Prod) {
        Some(Op::Prod)
    } else if n == op_name(Op::Average) {
        Some(Op::Average)
    } else if n == op_name(Op::LinComb) {
        Some(Op::LinComb)
    } else if n == op_name(Op::Drop) {
        Some(Op::Drop)
    } else if n == op_name(Op::Cyclic) {
        Some(Op::Cyclic)
    } else if n == op_name(Op::Alternating) {
        Some(Op::Alternating)
    } else if n == op_name(Op::Smoothed) {
        Some(Op::Smoothed)
    } else {
        None
    }
}

/// The number of numeric parameters an operator takes.
pub open spec fn param_arity(op: Op) -> nat {
    match op {
        Op::Arithmetic => 2,
        Op::Geometric => 2,
        Op::Constant => 1,
        Op::Recursive => 4,
        Op::Sum => 0,
        Op::Prod => 0,
        Op::Average => 0,
        Op::LinComb => 3,
        Op::Drop => 1,
        Op::Cyclic => 1,
        Op::Alternating => 0,
        Op::Smoothed => 0,
    }
}

/// The number of child sub-sequences an operator takes.
pub open spec fn child_arity(op: Op) -> nat {
    match op {
        Op::Arithmetic => 0,
        Op::Geometric => 0,
        Op::Constant => 0,
        Op::Recursive => 0,
        Op::Sum => 2,
        Op::Prod => 2,
        Op::Average => 2,
        Op::LinComb => 2,
        Op::Drop => 1,
        Op::Cyclic => 1,
        Op::Alternating => 1,
        Op::Smoothed => 1,
    }
}

impl Op {
    /// The wire name of this operator.
    pub fn name_string(self) -> (r: String)
        ensures
            r@ == op_name(self),
    {
        match self {
            Op::Arithmetic => String::from_str("Arithmetic"),
            Op::Geometric => String::from_str("Geometric"),
            Op::Constant => String::from_str("Constant"),
            Op::Recursive => String::from_str("Recursive"),
            Op::Sum => String::from_str("Sum"),
            Op::Prod => String::from_str("Prod"),
            Op::Average => String::from_str("Average"),
            Op::LinComb => String::from_str("LinComb"),
            Op::Drop => String::from_str("Drop"),
            Op::Cyclic => String::from_str("Cyclic"),
            Op::Alternating => String::from_str("Alternating"),
            Op::Smoothed => String::from_str("Smoothed"),
        }
    }

    /// The number of numeric parameters this operator takes.
    pub fn parameter_arity(self) -> (r: u32)
        ensures
            r == param_arity(self),
    {
        match self {
            Op::Arithmetic => 2,
            Op::Geometric => 2,
            Op::Constant => 1,
            Op::Recursive => 4,
            Op::Sum => 0,
            Op::Prod => 0,
            Op::Average => 0,
            Op::LinComb => 3,
            Op::Drop => 1,
            Op::Cyclic => 1,
            Op::Alternating => 0,
            Op::Smoothed => 0,
        }
    }

    /// The number of child sub-sequences this operator takes.
    pub fn sequence_arity(self) -> (r: u32)
        ensures
            r == child_arity(self),
    {
        match self {
            Op::Arithmetic => 0,
            Op::Geometric => 0,
            Op::Constant => 0,
            Op::Recursive => 0,
            Op::Sum => 2,
            Op::Prod => 2,
            Op::Average => 2,
            Op::LinComb => 2,
            Op::Drop => 1,
            Op::Cyclic => 1,
            Op::Alternating => 1,
            Op::Smoothed => 1,
        }
    }

    /// Looks an operator up by its wire name; `None` exactly for names
    /// outside the closed algebra.
    pub fn from_name(name: &String) -> (r: Option<Op>)
        ensures
            r == spec_op_of_name(name@),
            r matches Some(op) ==> name@ == op_name(op),
            r is None ==> forall|op: Op| name@ != op_name(op),
    {
        if *name == Op::Arithmetic.name_string() {
            Some(Op::Arithmetic)
        } else if *name == Op::Geometric.name_string() {
            Some(Op::Geometric)
        } else if *name == Op::Constant.name_string() {
            Some(Op::Constant)
        } else if *name == Op::Recursive.name_string() {
            Some(Op::Recursive)
        } else if *name == Op::Sum.name_string() {
            Some(Op::Sum)
        } else if *name == Op::Prod.name_string() {
            Some(Op::Prod)
        } else if *name == Op::Average.name_string() {
            Some(Op::Average)
        } else if *name == Op::LinComb.name_string() {
            Some(Op::LinComb)
        } else if *name == Op::Drop.name_string() {
            Some(Op::Drop)
        } else if *name == Op::Cyclic.name_string() {
            Some(Op::Cyclic)
        } else if *name == Op::Alternating.name_string() {
            Some(Op::Alternating)
        } else if *name == Op::Smoothed.name_string() {
            Some(Op::Smoothed)
        } else {
            None
        }
    }
}

/// A validated expression tree: every node carries exactly the parameters
/// and children its operator requires.
#[derive(Debug)]
pub enum Expr {
    Arithmetic { start: Rat, step: Rat },
    Geometric { start: Rat, factor: Rat },
    Constant { value: Rat },
    Recursive { x0: Rat, x1: Rat, a: Rat, b: Rat },
    Sum { left: Box<Expr>, right: Box<Expr> },
    Prod { left: Box<Expr>, right: Box<Expr> },
    Average { left: Box<Expr>, right: Box<Expr> },
    LinComb { a: Rat, b: Rat, c: Rat, left: Box<Expr>, right: Box<Expr> },
    Drop { n: u64, child: Box<Expr> },
    Cyclic { period: u64, child: Box<Expr> },
    Alternating { child: Box<Expr> },
    Smoothed { child: Box<Expr> },
}

impl Expr {
    /// The operator at the root of this tree.
    pub open spec fn op(self) -> Op {
        match self {
            Expr::Arithmetic { .. } => Op::Arithmetic,
            Expr::Geometric { .. } => Op::Geometric,
            Expr::Constant { .. } => Op::Constant,
            Expr::Recursive { .. } => Op::Recursive,
            Expr::Sum { .. } => Op::Sum,
            Expr::Prod { .. } => Op::Prod,
            Expr::Average { .. } => Op::Average,
            Expr::LinComb { .. } => Op::LinComb,
            Expr::Drop { .. } => Op::Drop,
            Expr::Cyclic { .. } => Op::Cyclic,
            Expr::Alternating { .. } => Op::Alternating,
            Expr::Smoothed { .. } => Op::Smoothed,
        }
    }

    /// Well-formedness: every rational parameter has a positive denominator
    /// and every cycle length is positive.
    pub open spec fn wf(self) -> bool
        decreases self,
    {
        match self {
            Expr::Arithmetic { start, step } => start.wf() && step.wf(),
            Expr::Geometric { start, factor } => start.wf() && factor.wf(),
            Expr::Constant { value } => value.wf(),
            Expr::Recursive { x0, x1, a, b } => x0.wf() && x1.wf() && a.wf() && b.wf(),
            Expr::Sum { left, right } => left.wf() && right.wf(),
            Expr::Prod { left, right } => left.wf() && right.wf(),
            Expr::Average { left, right } => left.wf() && right.wf(),
            Expr::LinComb { a, b, c, left, right } => {
                a.wf() && b.wf() && c.wf() && left.wf() && right.wf()
            },
            Expr::Drop { n: _, child } => child.wf(),
            Expr::Cyclic { period, child } => period >= 1 && child.wf(),
            Expr::Alternating { child } => child.wf(),
            Expr::Smoothed { child } => child.wf(),
        }
    }
}

/// The value of the linear recurrence `x(k) = a*x(k-1) + b*x(k-2)` with
/// seeds `x0` and `x1`, at index `k`.
pub open spec fn rec_value(
    x0: (int, int),
    x1: (int, int),
    a: (int, int),
    b: (int, int),
    k: nat,
) -> (int, int)
    decreases k,
{
    if k == 0 {
        x0
    } else if k == 1 {
        x1
    } else {
        rat_add(
            rat_mul(a, rec_value(x0, x1, a, b, (k - 1) as nat)),
            rat_mul(b, rec_value(x0, x1, a, b, (k - 2) as nat)),
        )
    }
}

/// The `k`-th power of a rational, by repeated multiplication.
pub open spec fn rat_pow(f: (int, int), k: nat) -> (int, int)
    decreases k,
{
    if k == 0 {
        rat_of_int(1)
    } else {
        rat_mul(rat_pow(f, (k - 1) as nat), f)
    }
}

/// The value of expression `e` at index `k`: the contract every evaluator
/// of the algebra answers to.
pub open spec fn value_at(e: Expr, k: nat) -> (int, int)
    decreases e,
{
    match e {
        Expr::Arithmetic { start, step } => rat_add(start@, rat_mul(rat_of_int(k as int), step@)),
        Expr::Geometric { start, factor } => rat_mul(start@, rat_pow(factor@, k)),
        Expr::Constant { value } => value@,
        Expr::Recursive { x0, x1, a, b } => rec_value(x0@, x1@, a@, b@, k),
        Expr::Sum { left, right } => rat_add(value_at(*left, k), value_at(*right, k)),
        Expr::Prod { left, right } => rat_mul(value_at(*left, k), value_at(*right, k)),
        Expr::Average { left, right } => rat_div_int(
            rat_add(value_at(*left, k), value_at(*right, k)),
            2,
        ),
        Expr::LinComb { a, b, c, left, right } => rat_add(
            rat_add(
                rat_mul(a@, value_at(*left, k)),
                rat_mul(b@, value_at(*right, k)),
            ),
            c@,
        ),
        Expr::Drop { n, child } => value_at(*child, (k + n) as nat),
        Expr::Cyclic { period, child } => {
            // well-formed trees have period >= 1; the zero case is never
            // reached from a validated expression
            if period == 0 {
                value_at(*child, k)
            } else {
                value_at(*child, k % (period as nat))
            }
        },
        Expr::Alternating { child } => {
            if k % 2 == 0 {
                value_at(*child, k)
            } else {
                rat_neg(value_at(*child, k))
            }
        },
        Expr::Smoothed { child } => {
            if k == 0 {
                rat_div_int(rat_add(value_at(*child, 0), value_at(*child, 1)), 2)
            } else {
                rat_div_int(
                    rat_add(
                        rat_add(value_at(*child, (k - 1) as nat), value_at(*child, k)),
                        value_at(*child, (k + 1) as nat),
                    ),
                    3,
                )
            }
        },
    }
}

/// Smoothing a constant sequence leaves it unchanged: the boundary formula
/// at index zero and the interior formula everywhere else both come to the
/// constant itself.
pub proof fn lemma_smoothed_constant(e: Expr, c: Rat, k: nat)
    requires
        c.wf(),
        e matches Expr::Smoothed { child } && *child == (Expr::Constant { value: c }),
    ensures
        rat_wf(value_at(e, k)),
        rat_eq(value_at(e, k), c@),
{
    let n = c@.0;
    let d = c@.1;
    match e {
        Expr::Smoothed { child } => {
            assert(value_at(*child, 0) == c@);
            assert(value_at(*child, 1) == c@);
            if k == 0 {
                assert(value_at(e, k) == rat_div_int(rat_add(c@, c@), 2));
                assert((n * d + n * d) * d == n * (d * d * 2)) by (nonlinear_arith);
                assert(d * d * 2 > 0) by (nonlinear_arith)
                    requires
                        d > 0,
                ;
            } else {
                assert(value_at(*child, (k - 1) as nat) == c@);
                assert(value_at(*child, k) == c@);
                assert(value_at(*child, (k + 1) as nat) == c@);
                assert(value_at(e, k) == rat_div_int(rat_add(rat_add(c@, c@), c@), 3));
                assert(((n * d + n * d) * d + n * (d * d)) * d == n * ((d * d) * d * 3))
                    by (nonlinear_arith);
                assert((d * d) * d * 3 > 0) by (nonlinear_arith)
                    requires
                        d > 0,
                ;
            }
        },
        _ => {},
    }
}

} // verus!
