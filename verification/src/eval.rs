//! The evaluation engine.
//!
//! [`evaluate`] walks a validated expression tree and produces the ordered
//! sequence of values for a requested index range, range-at-once: each
//! child's full requested sub-range is computed exactly once and reused for
//! every parent index, and the linear recurrence is rolled forward with
//! explicit iterative state rather than re-derived per index.
//!
//! Every arithmetic step is checked. [`eval_fits`] states, operator by
//! operator, exactly which intermediate results the engine forms; the engine
//! returns `Ok` precisely when all of them fit in `i128`, and the values it
//! returns are exactly [`value_at`] at each requested index.

use vstd::prelude::*;
use vstd::arithmetic::div_mod::{lemma_mod_bound, lemma_mod_decreases};
use crate::algebra::{Expr, rat_pow, rec_value, value_at};
use crate::range::{Range, lemma_index_at_bound};
use crate::rational::{
    Rat, add_ok, div_int_ok, mul_ok, neg_ok, rat_add, rat_div_int, rat_mul, rat_neg,
    rat_of_int,
};

verus! {

/// Why evaluation failed.
#[derive(Clone, Copy, Debug, PartialEq, Eq, Structural)]
pub enum EvalError {
    /// An intermediate numerator or denominator left the `i128` range, or an
    /// index computation left the `u64` range.
    Overflow,
    /// The tree references an operator absent from the local capability
    /// manifest; the signal that triggers delegation.
    UnsupportedOperator,
}

/// The intermediates of `start + k * step` fit.
pub open spec fn arith_fits_at(s: (int, int), d: (int, int), k: nat) -> bool {
    &&& mul_ok(rat_of_int(k as int), d)
    &&& add_ok(s, rat_mul(rat_of_int(k as int), d))
}

/// Every power of `f` up to the `last` requested index is formed by one more
/// multiplication, and each fits.
pub open spec fn geo_chain_fits(f: (int, int), last: nat) -> bool {
    forall|j: nat| j < last ==> mul_ok(#[trigger] rat_pow(f, j), f)
}

/// The intermediates of one forward step of the recurrence at index `j`.
pub open spec fn rec_step_fits(
    x0: (int, int),
    x1: (int, int),
    a: (int, int),
    b: (int, int),
    j: int,
) -> bool {
    &&& mul_ok(a, rec_value(x0, x1, a, b, (j - 1) as nat))
    &&& mul_ok(b, rec_value(x0, x1, a, b, (j - 2) as nat))
    &&& add_ok(
        rat_mul(a, rec_value(x0, x1, a, b, (j - 1) as nat)),
        rat_mul(b, rec_value(x0, x1, a, b, (j - 2) as nat)),
    )
}

/// The intermediates of `(a + b) / 2` fit.
pub open spec fn avg_fits_at(a: (int, int), b: (int, int)) -> bool {
    &&& add_ok(a, b)
    &&& div_int_ok(rat_add(a, b), 2)
}

/// The intermediates of `a*A + b*B + c` fit.
pub open spec fn lincomb_fits_at(
    a: (int, int),
    b: (int, int),
    c: (int, int),
    vl: (int, int),
    vr: (int, int),
) -> bool {
    &&& mul_ok(a, vl)
    &&& mul_ok(b, vr)
    &&& add_ok(rat_mul(a, vl), rat_mul(b, vr))
    &&& add_ok(rat_add(rat_mul(a, vl), rat_mul(b, vr)), c)
}

/// The intermediates of the smoothing window around index `k` fit.
pub open spec fn smooth_fits_at(c: Expr, k: nat) -> bool {
    if k == 0 {
        &&& add_ok(value_at(c, 0), value_at(c, 1))
        &&& div_int_ok(rat_add(value_at(c, 0), value_at(c, 1)), 2)
    } else {
        &&& add_ok(value_at(c, (k - 1) as nat), value_at(c, k))
        &&& add_ok(
            rat_add(value_at(c, (k - 1) as nat), value_at(c, k)),
            value_at(c, (k + 1) as nat),
        )
        &&& div_int_ok(
            rat_add(
                rat_add(value_at(c, (k - 1) as nat), value_at(c, k)),
                value_at(c, (k + 1) as nat),
            ),
            3,
        )
    }
}

/// The sub-range of the child a cyclic node needs: one full cycle, capped at
/// the highest requested index. Meaningful for `period >= 1`.
pub open spec fn cyclic_child_range(period: u64, r: Range) -> Range {
    Range {
        from: 0,
        to: if period - 1 < r.to { (period - 1) as u64 } else { r.to },
        step: 1,
    }
}

/// The contiguous sub-range of the child a smoothing node needs: one index
/// before `from` (where there is one) through one past `to`. Meaningful for
/// `r.to < u64::MAX`.
pub open spec fn smooth_child_range(r: Range) -> Range {
    Range {
        from: if r.from == 0 { 0 } else { (r.from - 1) as u64 },
        to: (r.to + 1) as u64,
        step: 1,
    }
}

/// The range a dropped child is evaluated over: the requested one shifted up
/// by `n`. Meaningful for `r.to + n <= u64::MAX`.
pub open spec fn drop_child_range(n: u64, r: Range) -> Range {
    Range { from: (r.from + n) as u64, to: (r.to + n) as u64, step: r.step }
}

/// Exactly when the engine's computation of `e` over `r` stays within
/// machine bounds: `evaluate` returns `Ok` if and only if this holds.
pub open spec fn eval_fits(e: Expr, r: Range) -> bool
    decreases e,
{
    r.count() == 0 || ({
        &&& r.count() <= u64::MAX
        &&& match e {
            Expr::Arithmetic { start, step } => forall|i: int|
                0 <= i < r.count() ==> arith_fits_at(start@, step@, r.index_at(i)),
            Expr::Geometric { start, factor } => {
                &&& geo_chain_fits(factor@, r.index_at(r.count() as int - 1))
                &&& forall|i: int|
                    0 <= i < r.count() ==> mul_ok(start@, rat_pow(factor@, r.index_at(i)))
            },
            Expr::Constant { .. } => true,
            Expr::Recursive { x0, x1, a, b } => forall|j: int|
                2 <= j <= r.index_at(r.count() as int - 1) ==> rec_step_fits(x0@, x1@, a@, b@, j),
            Expr::Sum { left, right } => {
                &&& eval_fits(*left, r)
                &&& eval_fits(*right, r)
                &&& forall|i: int|
                    0 <= i < r.count() ==> add_ok(
                        value_at(*left, r.index_at(i)),
                        value_at(*right, r.index_at(i)),
                    )
            },
            Expr::Prod { left, right } => {
                &&& eval_fits(*left, r)
                &&& eval_fits(*right, r)
                &&& forall|i: int|
                    0 <= i < r.count() ==> mul_ok(
                        value_at(*left, r.index_at(i)),
                        value_at(*right, r.index_at(i)),
                    )
            },
            Expr::Average { left, right } => {
                &&& eval_fits(*left, r)
                &&& eval_fits(*right, r)
                &&& forall|i: int|
                    0 <= i < r.count() ==> avg_fits_at(
                        value_at(*left, r.index_at(i)),
                        value_at(*right, r.index_at(i)),
                    )
            },
            Expr::LinComb { a, b, c, left, right } => {
                &&& eval_fits(*left, r)
                &&& eval_fits(*right, r)
                &&& forall|i: int|
                    0 <= i < r.count() ==> lincomb_fits_at(
                        a@,
                        b@,
                        c@,
                        value_at(*left, r.index_at(i)),
                        value_at(*right, r.index_at(i)),
                    )
            },
            Expr::Drop { n, child } => {
                &&& r.to + n <= u64::MAX
                &&& eval_fits(*child, drop_child_range(n, r))
            },
            Expr::Cyclic { period, child } => eval_fits(*child, cyclic_child_range(period, r)),
            Expr::Alternating { child } => {
                &&& eval_fits(*child, r)
                &&& forall|i: int|
                    0 <= i < r.count() && r.index_at(i) % 2 == 1 ==> neg_ok(
                        value_at(*child, r.index_at(i)),
                    )
            },
            Expr::Smoothed { child } => {
                &&& r.to + 1 <= u64::MAX
                &&& eval_fits(*child, smooth_child_range(r))
                &&& forall|i: int| 0 <= i < r.count() ==> smooth_fits_at(*child, r.index_at(i))
            },
        }
    })
}

/// `v` holds exactly the values of `e` at the indices `r` denotes.
pub open spec fn results_match(v: Seq<Rat>, e: Expr, r: Range) -> bool {
    &&& v.len() == r.count()
    &&& forall|i: int|
        0 <= i < v.len() ==> (#[trigger] v[i]).wf() && v[i]@ == value_at(e, r.index_at(i))
}

/// The column of a constant sequence: `n` copies of `v`.
fn repeat_value(v: Rat, n: u64) -> (out: Vec<Rat>)
    ensures
        out@.len() == n,
        forall|i: int| 0 <= i < n ==> (#[trigger] out@[i]) == v,
{
    let mut out: Vec<Rat> = Vec::new();
    let mut i: u64 = 0;
    while i < n
        invariant
            i <= n,
            out@.len() == i,
            forall|m: int| 0 <= m < i ==> (#[trigger] out@[m]) == v,
        decreases n - i,
    {
        out.push(v);
        i += 1;
    }
    out
}

/// The column of an arithmetic sequence `s + k * d` over `r`.
#[verifier::loop_isolation(false)]
fn eval_arithmetic(s: Rat, d: Rat, r: &Range) -> (res: Result<Vec<Rat>, EvalError>)
    requires
        s.wf(),
        d.wf(),
        r.wf(),
        r.from <= r.to,
        r.count() <= u64::MAX,
    ensures
        res matches Ok(v) ==> v@.len() == r.count() && forall|i: int|
            0 <= i < r.count() ==> (#[trigger] v@[i]).wf() && v@[i]@ == rat_add(
                s@,
                rat_mul(rat_of_int(r.index_at(i) as int), d@),
            ),
        res is Ok <==> forall|i: int| 0 <= i < r.count() ==> arith_fits_at(s@, d@, r.index_at(i)),
        res matches Err(e) ==> e == EvalError::Overflow,
{
    let n = r.count_exec().unwrap();
    let mut out: Vec<Rat> = Vec::new();
    let mut i: u64 = 0;
    while i < n
        invariant
            i <= n,
            n == r.count(),
            s.wf(),
            d.wf(),
            r.wf(),
            r.from <= r.to,
            out@.len() == i,
            forall|m: int|
                0 <= m < i ==> (#[trigger] out@[m]).wf() && out@[m]@ == rat_add(
                    s@,
                    rat_mul(rat_of_int(r.index_at(m) as int), d@),
                ),
            forall|m: int| 0 <= m < i ==> arith_fits_at(s@, d@, r.index_at(m)),
        decreases n - i,
    {
        proof {
            lemma_index_at_bound(*r, i as int);
        }
        let k = r.from + i * r.step;
        let kr = Rat::from_index(k);
        let kd = match kr.checked_mul(&d) {
            Some(x) => x,
            None => {
                return Err(EvalError::Overflow);
            },
        };
        let val = match s.checked_add(&kd) {
            Some(x) => x,
            None => {
                return Err(EvalError::Overflow);
            },
        };
        out.push(val);
        i += 1;
    }
    Ok(out)
}

/// The column of a geometric sequence `s * f^k` over `r`, with the power
/// carried forward between indices.
#[verifier::loop_isolation(false)]
fn eval_geometric(s: Rat, f: Rat, r: &Range) -> (res: Result<Vec<Rat>, EvalError>)
    requires
        s.wf(),
        f.wf(),
        r.wf(),
        r.from <= r.to,
        r.count() <= u64::MAX,
    ensures
        res matches Ok(v) ==> v@.len() == r.count() && forall|i: int|
            0 <= i < r.count() ==> (#[trigger] v@[i]).wf() && v@[i]@ == rat_mul(
                s@,
                rat_pow(f@, r.index_at(i)),
            ),
        res is Ok <==> geo_chain_fits(f@, r.index_at(r.count() as int - 1)) && forall|i: int|
            0 <= i < r.count() ==> mul_ok(s@, rat_pow(f@, r.index_at(i))),
        res matches Err(e) ==> e == EvalError::Overflow,
{
    let n = r.count_exec().unwrap();
    proof {
        lemma_index_at_bound(*r, n as int - 1);
    }
    let ghost last: nat = r.index_at(n as int - 1);
    let mut pw = Rat::from_int(1);
    let mut j: u64 = 0;
    while j < r.from
        invariant
            j <= r.from,
            n == r.count(),
            n >= 1,
            last == r.index_at(n as int - 1),
            r.from <= last <= r.to,
            s.wf(),
            f.wf(),
            pw.wf(),
            pw@ == rat_pow(f@, j as nat),
            forall|jj: nat| jj < j ==> mul_ok(#[trigger] rat_pow(f@, jj), f@),
        decreases r.from - j,
    {
        pw = match pw.checked_mul(&f) {
            Some(x) => x,
            None => {
                proof {
                    assert(!mul_ok(rat_pow(f@, j as nat), f@));
                    assert(j < last);
                    assert(!geo_chain_fits(f@, last));
                }
                return Err(EvalError::Overflow);
            },
        };
        j += 1;
    }
    let mut out: Vec<Rat> = Vec::new();
    let mut i: u64 = 0;
    while i < n
        invariant
            i <= n,
            n == r.count(),
            n >= 1,
            r.wf(),
            r.from <= r.to,
            last == r.index_at(n as int - 1),
            last <= r.to,
            s.wf(),
            f.wf(),
            pw.wf(),
            i < n ==> j == r.index_at(i as int),
            i == n ==> j == last,
            j <= last,
            pw@ == rat_pow(f@, j as nat),
            forall|jj: nat| jj < j ==> mul_ok(#[trigger] rat_pow(f@, jj), f@),
            out@.len() == i,
            forall|m: int|
                0 <= m < i ==> (#[trigger] out@[m]).wf() && out@[m]@ == rat_mul(
                    s@,
                    rat_pow(f@, r.index_at(m)),
                ),
            forall|m: int| 0 <= m < i ==> mul_ok(s@, rat_pow(f@, r.index_at(m))),
        decreases n - i,
    {
        let val = match s.checked_mul(&pw) {
            Some(x) => x,
            None => {
                proof {
                    assert(!mul_ok(s@, rat_pow(f@, r.index_at(i as int))));
                }
                return Err(EvalError::Overflow);
            },
        };
        out.push(val);
        if i + 1 < n {
            proof {
                lemma_index_at_bound(*r, i as int + 1);
                assert((i as int + 1) * r.step == i as int * r.step + r.step) by (nonlinear_arith);
                assert(r.index_at(i as int + 1) <= last) by (nonlinear_arith)
                    requires
                        r.index_at(i as int + 1) == r.from + (i + 1) * r.step,
                        last == r.from + (n - 1) * r.step,
                        i as int + 1 <= n - 1,
                        r.step >= 1,
                        r.from >= 0,
                        i >= 0,
                ;
                assert(r.index_at(i as int + 1) == j + r.step);
            }
            let mut t: u64 = 0;
            while t < r.step
                invariant
                    t <= r.step,
                    f.wf(),
                    pw.wf(),
                    j == r.index_at(i as int) + t,
                    r.index_at(i as int) + r.step <= last,
                    pw@ == rat_pow(f@, j as nat),
                    forall|jj: nat| jj < j ==> mul_ok(#[trigger] rat_pow(f@, jj), f@),
                decreases r.step - t,
            {
                pw = match pw.checked_mul(&f) {
                    Some(x) => x,
                    None => {
                        proof {
                            assert(!mul_ok(rat_pow(f@, j as nat), f@));
                            assert(j < last);
                            assert(!geo_chain_fits(f@, last));
                        }
                        return Err(EvalError::Overflow);
                    },
                };
                j += 1;
                t += 1;
            }
        }
        i += 1;
    }
    Ok(out)
}

/// The column of the linear recurrence over `r`, rolled forward once with
/// the two previous values as explicit state.
#[verifier::loop_isolation(false)]
fn eval_recursive(x0: Rat, x1: Rat, a: Rat, b: Rat, r: &Range) -> (res: Result<Vec<Rat>, EvalError>)
    requires
        x0.wf(),
        x1.wf(),
        a.wf(),
        b.wf(),
        r.wf(),
        r.from <= r.to,
        r.count() <= u64::MAX,
    ensures
        res matches Ok(v) ==> v@.len() == r.count() && forall|i: int|
            0 <= i < r.count() ==> (#[trigger] v@[i]).wf() && v@[i]@ == rec_value(
                x0@,
                x1@,
                a@,
                b@,
                r.index_at(i),
            ),
        res is Ok <==> forall|j: int|
            2 <= j <= r.index_at(r.count() as int - 1) ==> rec_step_fits(x0@, x1@, a@, b@, j),
        res matches Err(e) ==> e == EvalError::Overflow,
{
    let n = r.count_exec().unwrap();
    proof {
        lemma_index_at_bound(*r, n as int - 1);
    }
    let ghost last: nat = r.index_at(n as int - 1);
    let mut vm1 = x1;
    let mut vm2 = x0;
    let mut out: Vec<Rat> = Vec::new();
    let mut i: u64 = 0;
    let mut j: u64 = 0;
    while i < n
        invariant
            i <= n,
            n == r.count(),
            n >= 1,
            r.wf(),
            r.from <= r.to,
            last == r.index_at(n as int - 1),
            last <= r.to,
            x0.wf(),
            x1.wf(),
            a.wf(),
            b.wf(),
            vm1.wf(),
            vm2.wf(),
            j <= last,
            i < n ==> j <= r.index_at(i as int),
            j >= 1 ==> vm1@ == rec_value(x0@, x1@, a@, b@, (j - 1) as nat),
            j >= 2 ==> vm2@ == rec_value(x0@, x1@, a@, b@, (j - 2) as nat),
            forall|jj: int| 2 <= jj < j ==> rec_step_fits(x0@, x1@, a@, b@, jj),
            i == n ==> forall|jj: int| 2 <= jj <= last ==> rec_step_fits(x0@, x1@, a@, b@, jj),
            out@.len() == i,
            forall|m: int|
                0 <= m < i ==> (#[trigger] out@[m]).wf() && out@[m]@ == rec_value(
                    x0@,
                    x1@,
                    a@,
                    b@,
                    r.index_at(m),
                ),
        decreases n - i, last - j,
    {
        proof {
            lemma_index_at_bound(*r, i as int);
            assert(r.index_at(i as int) <= last) by (nonlinear_arith)
                requires
                    r.index_at(i as int) == r.from + i * r.step,
                    last == r.from + (n - 1) * r.step,
                    0 <= i as int <= n - 1,
                    r.step >= 1,
                    r.from >= 0,
            ;
        }
        let sel = r.from + i * r.step;
        let vj: Rat = if j == 0 {
            x0
        } else if j == 1 {
            x1
        } else {
            let t1 = match a.checked_mul(&vm1) {
                Some(x) => x,
                None => {
                    proof {
                        assert(!rec_step_fits(x0@, x1@, a@, b@, j as int));
                    }
                    return Err(EvalError::Overflow);
                },
            };
            let t2 = match b.checked_mul(&vm2) {
                Some(x) => x,
                None => {
                    proof {
                        assert(!rec_step_fits(x0@, x1@, a@, b@, j as int));
                    }
                    return Err(EvalError::Overflow);
                },
            };
            match t1.checked_add(&t2) {
                Some(x) => x,
                None => {
                    proof {
                        assert(!rec_step_fits(x0@, x1@, a@, b@, j as int));
                    }
                    return Err(EvalError::Overflow);
                },
            }
        };
        proof {
            assert(vj@ == rec_value(x0@, x1@, a@, b@, j as nat));
        }
        if j == sel {
            out.push(vj);
            i += 1;
            if i < n {
                proof {
                    lemma_index_at_bound(*r, i as int);
                    assert(i as int * r.step == (i as int - 1) * r.step + r.step)
                        by (nonlinear_arith);
                    assert(r.index_at(i as int) == sel + r.step);
                    assert(r.index_at(i as int) <= last) by (nonlinear_arith)
                        requires
                            r.index_at(i as int) == r.from + i * r.step,
                            last == r.from + (n - 1) * r.step,
                            0 <= i as int <= n - 1,
                            r.step >= 1,
                            r.from >= 0,
                    ;
                }
                vm2 = vm1;
                vm1 = vj;
                j += 1;
            } else {
                proof {
                    assert(j == last);
                    assert forall|jj: int| 2 <= jj <= last implies rec_step_fits(
                        x0@,
                        x1@,
                        a@,
                        b@,
                        jj,
                    ) by {
                        if jj < j {
                        } else {
                            assert(jj == j as int);
                        }
                    }
                }
            }
        } else {
            vm2 = vm1;
            vm1 = vj;
            j += 1;
        }
    }
    Ok(out)
}


/// Element-wise checked sum of the two children's columns.
#[verifier::loop_isolation(false)]
fn combine_sum(va: &Vec<Rat>, vb: &Vec<Rat>, Ghost(le): Ghost<Expr>, Ghost(re): Ghost<Expr>, r: &Range) -> (res: Result<Vec<Rat>, EvalError>)
    requires
        r.wf(),
        r.from <= r.to,
        r.count() <= u64::MAX,
        results_match(va@, le, *r),
        results_match(vb@, re, *r),
    ensures
        res matches Ok(v) ==> v@.len() == r.count() && forall|i: int|
            0 <= i < r.count() ==> (#[trigger] v@[i]).wf() && v@[i]@ == rat_add(
                value_at(le, r.index_at(i)),
                value_at(re, r.index_at(i)),
            ),
        res is Ok <==> forall|i: int|
            0 <= i < r.count() ==> add_ok(
                value_at(le, #[trigger] r.index_at(i)),
                value_at(re, r.index_at(i)),
            ),
        res matches Err(e) ==> e == EvalError::Overflow,
{
    let n = va.len();
    let mut out: Vec<Rat> = Vec::new();
    let mut i: usize = 0;
    while i < n
        invariant
            i <= n,
            out@.len() == i,
            forall|m: int|
                0 <= m < i ==> (#[trigger] out@[m]).wf() && out@[m]@ == rat_add(
                    value_at(le, r.index_at(m)),
                    value_at(re, r.index_at(m)),
                ),
            forall|m: int|
                0 <= m < i ==> add_ok(
                    value_at(le, #[trigger] r.index_at(m)),
                    value_at(re, r.index_at(m)),
                ),
        decreases n - i,
    {
        let x = va[i];
        let y = vb[i];
        match x.checked_add(&y) {
            Some(v) => {
                out.push(v);
            },
            None => {
                return Err(EvalError::Overflow);
            },
        }
        i += 1;
    }
    Ok(out)
}

/// Element-wise checked product of the two children's columns.
#[verifier::loop_isolation(false)]
fn combine_prod(va: &Vec<Rat>, vb: &Vec<Rat>, Ghost(le): Ghost<Expr>, Ghost(re): Ghost<Expr>, r: &Range) -> (res: Result<Vec<Rat>, EvalError>)
    requires
        r.wf(),
        r.from <= r.to,
        r.count() <= u64::MAX,
        results_match(va@, le, *r),
        results_match(vb@, re, *r),
    ensures
        res matches Ok(v) ==> v@.len() == r.count() && forall|i: int|
            0 <= i < r.count() ==> (#[trigger] v@[i]).wf() && v@[i]@ == rat_mul(
                value_at(le, r.index_at(i)),
                value_at(re, r.index_at(i)),
            ),
        res is Ok <==> forall|i: int|
            0 <= i < r.count() ==> mul_ok(
                value_at(le, #[trigger] r.index_at(i)),
                value_at(re, r.index_at(i)),
            ),
        res matches Err(e) ==> e == EvalError::Overflow,
{
    let n = va.len();
    let mut out: Vec<Rat> = Vec::new();
    let mut i: usize = 0;
    while i < n
        invariant
            i <= n,
            out@.len() == i,
            forall|m: int|
                0 <= m < i ==> (#[trigger] out@[m]).wf() && out@[m]@ == rat_mul(
                    value_at(le, r.index_at(m)),
                    value_at(re, r.index_at(m)),
                ),
            forall|m: int|
                0 <= m < i ==> mul_ok(
                    value_at(le, #[trigger] r.index_at(m)),
                    value_at(re, r.index_at(m)),
                ),
        decreases n - i,
    {
        let x = va[i];
        let y = vb[i];
        match x.checked_mul(&y) {
            Some(v) => {
                out.push(v);
            },
            None => {
                return Err(EvalError::Overflow);
            },
        }
        i += 1;
    }
    Ok(out)
}

/// Element-wise checked average of the two children's columns.
#[verifier::loop_isolation(false)]
fn combine_avg(va: &Vec<Rat>, vb: &Vec<Rat>, Ghost(le): Ghost<Expr>, Ghost(re): Ghost<Expr>, r: &Range) -> (res: Result<Vec<Rat>, EvalError>)
    requires
        r.wf(),
        r.from <= r.to,
        r.count() <= u64::MAX,
        results_match(va@, le, *r),
        results_match(vb@, re, *r),
    ensures
        res matches Ok(v) ==> v@.len() == r.count() && forall|i: int|
            0 <= i < r.count() ==> (#[trigger] v@[i]).wf() && v@[i]@ == rat_div_int(
                rat_add(value_at(le, r.index_at(i)), value_at(re, r.index_at(i))),
                2,
            ),
        res is Ok <==> forall|i: int|
            0 <= i < r.count() ==> avg_fits_at(
                value_at(le, #[trigger] r.index_at(i)),
                value_at(re, r.index_at(i)),
            ),
        res matches Err(e) ==> e == EvalError::Overflow,
{
    let n = va.len();
    let mut out: Vec<Rat> = Vec::new();
    let mut i: usize = 0;
    while i < n
        invariant
            i <= n,
            out@.len() == i,
            forall|m: int|
                0 <= m < i ==> (#[trigger] out@[m]).wf() && out@[m]@ == rat_div_int(
                    rat_add(value_at(le, r.index_at(m)), value_at(re, r.index_at(m))),
                    2,
                ),
            forall|m: int|
                0 <= m < i ==> avg_fits_at(
                    value_at(le, #[trigger] r.index_at(m)),
                    value_at(re, r.index_at(m)),
                ),
        decreases n - i,
    {
        let x = va[i];
        let y = vb[i];
        let s = match x.checked_add(&y) {
            Some(v) => v,
            None => {
                return Err(EvalError::Overflow);
            },
        };
        match s.checked_div_int(2) {
            Some(v) => {
                out.push(v);
            },
            None => {
                return Err(EvalError::Overflow);
            },
        }
        i += 1;
    }
    Ok(out)
}

/// Element-wise checked linear combination `ca*A + cb*B + cc` of the two
/// children's columns.
#[verifier::loop_isolation(false)]
fn combine_lincomb(
    ca: &Rat,
    cb: &Rat,
    cc: &Rat,
    va: &Vec<Rat>,
    vb: &Vec<Rat>,
    Ghost(le): Ghost<Expr>,
    Ghost(re): Ghost<Expr>,
    r: &Range,
) -> (res: Result<Vec<Rat>, EvalError>)
    requires
        ca.wf(),
        cb.wf(),
        cc.wf(),
        r.wf(),
        r.from <= r.to,
        r.count() <= u64::MAX,
        results_match(va@, le, *r),
        results_match(vb@, re, *r),
    ensures
        res matches Ok(v) ==> v@.len() == r.count() && forall|i: int|
            0 <= i < r.count() ==> (#[trigger] v@[i]).wf() && v@[i]@ == rat_add(
                rat_add(
                    rat_mul(ca@, value_at(le, r.index_at(i))),
                    rat_mul(cb@, value_at(re, r.index_at(i))),
                ),
                cc@,
            ),
        res is Ok <==> forall|i: int|
            0 <= i < r.count() ==> lincomb_fits_at(
                ca@,
                cb@,
                cc@,
                value_at(le, #[trigger] r.index_at(i)),
                value_at(re, r.index_at(i)),
            ),
        res matches Err(e) ==> e == EvalError::Overflow,
{
    let n = va.len();
    let mut out: Vec<Rat> = Vec::new();
    let mut i: usize = 0;
    while i < n
        invariant
            i <= n,
            out@.len() == i,
            forall|m: int|
                0 <= m < i ==> (#[trigger] out@[m]).wf() && out@[m]@ == rat_add(
                    rat_add(
                        rat_mul(ca@, value_at(le, r.index_at(m))),
                        rat_mul(cb@, value_at(re, r.index_at(m))),
                    ),
                    cc@,
                ),
            forall|m: int|
                0 <= m < i ==> lincomb_fits_at(
                    ca@,
                    cb@,
                    cc@,
                    value_at(le, #[trigger] r.index_at(m)),
                    value_at(re, r.index_at(m)),
                ),
        decreases n - i,
    {
        let x = va[i];
        let y = vb[i];
        let t1 = match ca.checked_mul(&x) {
            Some(v) => v,
            None => {
                return Err(EvalError::Overflow);
            },
        };
        let t2 = match cb.checked_mul(&y) {
            Some(v) => v,
            None => {
                return Err(EvalError::Overflow);
            },
        };
        let t3 = match t1.checked_add(&t2) {
            Some(v) => v,
            None => {
                return Err(EvalError::Overflow);
            },
        };
        match t3.checked_add(cc) {
            Some(v) => {
                out.push(v);
            },
            None => {
                return Err(EvalError::Overflow);
            },
        }
        i += 1;
    }
    Ok(out)
}

/// Picks, for every index `r` denotes, the entry of one cached cycle of
/// child values at position `k mod p`.
#[verifier::loop_isolation(false)]
fn select_cyclic(cv: &Vec<Rat>, p: u64, Ghost(ch): Ghost<Expr>, r: &Range) -> (out: Vec<Rat>)
    requires
        p >= 1,
        r.wf(),
        r.from <= r.to,
        r.count() <= u64::MAX,
        results_match(cv@, ch, cyclic_child_range(p, *r)),
    ensures
        out@.len() == r.count(),
        forall|i: int|
            0 <= i < r.count() ==> (#[trigger] out@[i]).wf() && out@[i]@ == value_at(
                ch,
                r.index_at(i) % (p as nat),
            ),
{
    let cr = Range {
        from: 0,
        to: if p - 1 < r.to {
            p - 1
        } else {
            r.to
        },
        step: 1,
    };
    proof {
        assert(cr == cyclic_child_range(p, *r));
        assert(cr.count() == cr.to + 1) by {
            assert((cr.to - 0) / 1int == cr.to);
        }
    }
    let n = r.count_exec().unwrap();
    let clen = cv.len();
    let mut out: Vec<Rat> = Vec::new();
    let mut i: u64 = 0;
    while i < n
        invariant
            i <= n,
            out@.len() == i,
            forall|m: int|
                0 <= m < i ==> (#[trigger] out@[m]).wf() && out@[m]@ == value_at(
                    ch,
                    r.index_at(m) % (p as nat),
                ),
        decreases n - i,
    {
        proof {
            lemma_index_at_bound(*r, i as int);
        }
        let k = r.from + i * r.step;
        let idx = k % p;
        proof {
            lemma_mod_decreases(k as nat, p as nat);
            assert(idx < cv@.len());
            assert(cr.index_at(idx as int) == idx);
            assert(cv@[idx as int]@ == value_at(ch, cr.index_at(idx as int)));
        }
        let val = cv[idx as usize];
        out.push(val);
        i += 1;
    }
    out
}

/// Flips the sign of every entry at an odd index; entries at even indices
/// pass through.
#[verifier::loop_isolation(false)]
fn select_alternating(cv: &Vec<Rat>, Ghost(ch): Ghost<Expr>, r: &Range) -> (res: Result<Vec<Rat>, EvalError>)
    requires
        r.wf(),
        r.from <= r.to,
        r.count() <= u64::MAX,
        results_match(cv@, ch, *r),
    ensures
        res matches Ok(v) ==> v@.len() == r.count() && forall|i: int|
            0 <= i < r.count() ==> (#[trigger] v@[i]).wf() && v@[i]@ == (
            if r.index_at(i) % 2 == 0 {
                value_at(ch, r.index_at(i))
            } else {
                rat_neg(value_at(ch, r.index_at(i)))
            }),
        res is Ok <==> forall|i: int|
            0 <= i < r.count() && #[trigger] r.index_at(i) % 2 == 1 ==> neg_ok(
                value_at(ch, r.index_at(i)),
            ),
        res matches Err(e) ==> e == EvalError::Overflow,
{
    let n = r.count_exec().unwrap();
    let clen = cv.len();
    let mut out: Vec<Rat> = Vec::new();
    let mut i: u64 = 0;
    while i < n
        invariant
            i <= n,
            out@.len() == i,
            forall|m: int|
                0 <= m < i ==> (#[trigger] out@[m]).wf() && out@[m]@ == (
                if r.index_at(m) % 2 == 0 {
                    value_at(ch, r.index_at(m))
                } else {
                    rat_neg(value_at(ch, r.index_at(m)))
                }),
            forall|m: int|
                0 <= m < i && #[trigger] r.index_at(m) % 2 == 1 ==> neg_ok(
                    value_at(ch, r.index_at(m)),
                ),
        decreases n - i,
    {
        proof {
            lemma_index_at_bound(*r, i as int);
            assert(i < cv@.len());
            assert(cv@[i as int]@ == value_at(ch, r.index_at(i as int)));
        }
        let k = r.from + i * r.step;
        let cval = cv[i as usize];
        if k % 2 == 0 {
            out.push(cval);
        } else {
            match cval.checked_neg() {
                Some(v) => {
                    out.push(v);
                },
                None => {
                    proof {
                        assert(r.index_at(i as int) % 2 == 1);
                        assert(!neg_ok(value_at(ch, r.index_at(i as int))));
                    }
                    return Err(EvalError::Overflow);
                },
            }
        }
        i += 1;
    }
    Ok(out)
}

/// Averages each entry with its neighbours, read from a contiguous column
/// of child values.
#[verifier::loop_isolation(false)]
fn select_smoothed(cv: &Vec<Rat>, Ghost(ch): Ghost<Expr>, r: &Range) -> (res: Result<Vec<Rat>, EvalError>)
    requires
        r.wf(),
        r.from <= r.to,
        r.to < u64::MAX,
        r.count() <= u64::MAX,
        results_match(cv@, ch, smooth_child_range(*r)),
    ensures
        res matches Ok(v) ==> v@.len() == r.count() && forall|i: int|
            0 <= i < r.count() ==> (#[trigger] v@[i]).wf() && v@[i]@ == (
            if r.index_at(i) == 0 {
                rat_div_int(rat_add(value_at(ch, 0), value_at(ch, 1)), 2)
            } else {
                rat_div_int(
                    rat_add(
                        rat_add(
                            value_at(ch, (r.index_at(i) - 1) as nat),
                            value_at(ch, r.index_at(i)),
                        ),
                        value_at(ch, (r.index_at(i) + 1) as nat),
                    ),
                    3,
                )
            }),
        res is Ok <==> forall|i: int|
            0 <= i < r.count() ==> smooth_fits_at(ch, #[trigger] r.index_at(i)),
        res matches Err(e) ==> e == EvalError::Overflow,
{
    let cfrom = if r.from == 0 {
        0
    } else {
        r.from - 1
    };
    let cto = r.to + 1;
    let cr = Range { from: cfrom, to: cto, step: 1 };
    proof {
        assert(cr == smooth_child_range(*r));
        assert(cr.count() == cto - cfrom + 1) by {
            assert((cto - cfrom) / 1int == cto - cfrom);
        }
    }
    let n = r.count_exec().unwrap();
    let clen = cv.len();
    let mut out: Vec<Rat> = Vec::new();
    let mut i: u64 = 0;
    while i < n
        invariant
            i <= n,
            out@.len() == i,
            forall|m: int|
                0 <= m < i ==> (#[trigger] out@[m]).wf() && out@[m]@ == (
                if r.index_at(m) == 0 {
                    rat_div_int(rat_add(value_at(ch, 0), value_at(ch, 1)), 2)
                } else {
                    rat_div_int(
                        rat_add(
                            rat_add(
                                value_at(ch, (r.index_at(m) - 1) as nat),
                                value_at(ch, r.index_at(m)),
                            ),
                            value_at(ch, (r.index_at(m) + 1) as nat),
                        ),
                        3,
                    )
                }),
            forall|m: int| 0 <= m < i ==> smooth_fits_at(ch, #[trigger] r.index_at(m)),
        decreases n - i,
    {
        proof {
            lemma_index_at_bound(*r, i as int);
        }
        let k = r.from + i * r.step;
        let val: Rat = if k == 0 {
            proof {
                assert(cfrom == 0);
                assert(cr.index_at(0) == 0);
                assert(cr.index_at(1) == 1);
                assert(cv@[0]@ == value_at(ch, 0));
                assert(cv@[1]@ == value_at(ch, 1));
            }
            let c0 = cv[0];
            let c1 = cv[1];
            let s2 = match c0.checked_add(&c1) {
                Some(x) => x,
                None => {
                    proof {
                        assert(!smooth_fits_at(ch, r.index_at(i as int)));
                    }
                    return Err(EvalError::Overflow);
                },
            };
            match s2.checked_div_int(2) {
                Some(x) => x,
                None => {
                    proof {
                        assert(!smooth_fits_at(ch, r.index_at(i as int)));
                    }
                    return Err(EvalError::Overflow);
                },
            }
        } else {
            let pm1 = k - 1 - cfrom;
            let p0 = k - cfrom;
            let p1 = k + 1 - cfrom;
            proof {
                assert(p1 < cv@.len());
                assert(cr.index_at(pm1 as int) == k - 1);
                assert(cr.index_at(p0 as int) == k);
                assert(cr.index_at(p1 as int) == k + 1);
                assert(cv@[pm1 as int]@ == value_at(ch, (k - 1) as nat));
                assert(cv@[p0 as int]@ == value_at(ch, k as nat));
                assert(cv@[p1 as int]@ == value_at(ch, (k + 1) as nat));
            }
            let cm1 = cv[pm1 as usize];
            let c0 = cv[p0 as usize];
            let cp1 = cv[p1 as usize];
            let s2 = match cm1.checked_add(&c0) {
                Some(x) => x,
                None => {
                    proof {
                        assert(!smooth_fits_at(ch, r.index_at(i as int)));
                    }
                    return Err(EvalError::Overflow);
                },
            };
            let s3 = match s2.checked_add(&cp1) {
                Some(x) => x,
                None => {
                    proof {
                        assert(!smooth_fits_at(ch, r.index_at(i as int)));
                    }
                    return Err(EvalError::Overflow);
                },
            };
            match s3.checked_div_int(3) {
                Some(x) => x,
                None => {
                    proof {
                        assert(!smooth_fits_at(ch, r.index_at(i as int)));
                    }
                    return Err(EvalError::Overflow);
                },
            }
        };
        out.push(val);
        i += 1;
    }
    Ok(out)
}

/// Evaluates `e` at every index `r` denotes, in order.
///
/// Returns the values exactly when every intermediate fits in machine
/// bounds; otherwise reports overflow.
pub fn evaluate(e: &Expr, r: &Range) -> (res: Result<Vec<Rat>, EvalError>)
    requires
        e.wf(),
        r.wf(),
    ensures
        res matches Ok(v) ==> results_match(v@, *e, *r),
        res is Ok <==> eval_fits(*e, *r),
        res matches Err(err) ==> err == EvalError::Overflow,
    decreases *e, 1int,
{
    if r.from > r.to {
        let empty: Vec<Rat> = Vec::new();
        return Ok(empty);
    }
    let n = match r.count_exec() {
        Some(c) => c,
        None => {
            return Err(EvalError::Overflow);
        },
    };
    match e {
        Expr::Constant { value } => {
            let out = repeat_value(*value, n);
            Ok(out)
        },
        Expr::Arithmetic { start, step } => eval_arithmetic(*start, *step, r),
        Expr::Geometric { start, factor } => eval_geometric(*start, *factor, r),
        Expr::Recursive { x0, x1, a, b } => eval_recursive(*x0, *x1, *a, *b, r),
        Expr::Sum { .. } | Expr::Prod { .. } | Expr::Average { .. } | Expr::LinComb { .. } => {
            evaluate_pointwise(e, r)
        },
        Expr::Drop { .. } | Expr::Cyclic { .. } | Expr::Alternating { .. }
        | Expr::Smoothed { .. } => evaluate_windowed(e, r),
    }
}

/// The arms of [`evaluate`] whose operator combines the two children's
/// columns index by index.
fn evaluate_pointwise(e: &Expr, r: &Range) -> (res: Result<Vec<Rat>, EvalError>)
    requires
        e.wf(),
        r.wf(),
        r.from <= r.to,
        1 <= r.count() <= u64::MAX,
        e matches Expr::Sum { .. } || e matches Expr::Prod { .. } || e matches Expr::Average {
            ..
        } || e matches Expr::LinComb { .. },
    ensures
        res matches Ok(v) ==> results_match(v@, *e, *r),
        res is Ok <==> eval_fits(*e, *r),
        res matches Err(err) ==> err == EvalError::Overflow,
    decreases *e, 0int,
{
    match e {
        Expr::Sum { left, right } => {
            let va = match evaluate(left, r) {
                Ok(v) => v,
                Err(err) => {
                    return Err(err);
                },
            };
            let vb = match evaluate(right, r) {
                Ok(v) => v,
                Err(err) => {
                    return Err(err);
                },
            };
            combine_sum(&va, &vb, Ghost(**left), Ghost(**right), r)
        },
        Expr::Prod { left, right } => {
            let va = match evaluate(left, r) {
                Ok(v) => v,
                Err(err) => {
                    return Err(err);
                },
            };
            let vb = match evaluate(right, r) {
                Ok(v) => v,
                Err(err) => {
                    return Err(err);
                },
            };
            combine_prod(&va, &vb, Ghost(**left), Ghost(**right), r)
        },
        Expr::Average { left, right } => {
            let va = match evaluate(left, r) {
                Ok(v) => v,
                Err(err) => {
                    return Err(err);
                },
            };
            let vb = match evaluate(right, r) {
                Ok(v) => v,
                Err(err) => {
                    return Err(err);
                },
            };
            combine_avg(&va, &vb, Ghost(**left), Ghost(**right), r)
        },
        Expr::LinComb { a, b, c, left, right } => {
            let ca = *a;
            let cb = *b;
            let cc = *c;
            let va = match evaluate(left, r) {
                Ok(v) => v,
                Err(err) => {
                    return Err(err);
                },
            };
            let vb = match evaluate(right, r) {
                Ok(v) => v,
                Err(err) => {
                    return Err(err);
                },
            };
            combine_lincomb(&ca, &cb, &cc, &va, &vb, Ghost(**left), Ghost(**right), r)
        },
        _ => {
            proof {
                assert(false);
            }
            Err(EvalError::Overflow)
        },
    }
}

/// The arms of [`evaluate`] whose operator reads its one child's column
/// through an index window: shifting, cycling, sign flips, smoothing.
fn evaluate_windowed(e: &Expr, r: &Range) -> (res: Result<Vec<Rat>, EvalError>)
    requires
        e.wf(),
        r.wf(),
        r.from <= r.to,
        1 <= r.count() <= u64::MAX,
        e matches Expr::Drop { .. } || e matches Expr::Cyclic { .. } || e matches Expr::Alternating {
            ..
        } || e matches Expr::Smoothed { .. },
    ensures
        res matches Ok(v) ==> results_match(v@, *e, *r),
        res is Ok <==> eval_fits(*e, *r),
        res matches Err(err) ==> err == EvalError::Overflow,
    decreases *e, 0int,
{
    match e {
        Expr::Drop { n: shift, child } => {
            let sh = *shift;
            let cto = match r.to.checked_add(sh) {
                Some(x) => x,
                None => {
                    return Err(EvalError::Overflow);
                },
            };
            let cfrom = r.from + sh;
            let cr = Range { from: cfrom, to: cto, step: r.step };
            assert(cr == drop_child_range(sh, *r));
            match evaluate(child, &cr) {
                Ok(v) => {
                    proof {
                        assert(cr.count() == r.count());
                        assert forall|i: int|
                            0 <= i < v@.len() implies (#[trigger] v@[i]).wf() && v@[i]@ == value_at(
                            *e,
                            r.index_at(i),
                        ) by {
                            assert(cr.index_at(i) == r.index_at(i) + sh);
                        }
                    }
                    Ok(v)
                },
                Err(err) => Err(err),
            }
        },
        Expr::Cyclic { period, child } => {
            let p = *period;
            let cto = if p - 1 < r.to {
                p - 1
            } else {
                r.to
            };
            let cr = Range { from: 0, to: cto, step: 1 };
            assert(cr == cyclic_child_range(p, *r));
            let cv = match evaluate(child, &cr) {
                Ok(v) => v,
                Err(err) => {
                    return Err(err);
                },
            };
            let out = select_cyclic(&cv, p, Ghost(**child), r);
            Ok(out)
        },
        Expr::Alternating { child } => {
            let cv = match evaluate(child, r) {
                Ok(v) => v,
                Err(err) => {
                    return Err(err);
                },
            };
            select_alternating(&cv, Ghost(**child), r)
        },
        Expr::Smoothed { child } => {
            let cto = match r.to.checked_add(1) {
                Some(x) => x,
                None => {
                    return Err(EvalError::Overflow);
                },
            };
            let cr = Range {
                from: if r.from == 0 {
                    0
                } else {
                    r.from - 1
                },
                to: cto,
                step: 1,
            };
            assert(cr == smooth_child_range(*r));
            let cv = match evaluate(child, &cr) {
                Ok(v) => v,
                Err(err) => {
                    return Err(err);
                },
            };
            select_smoothed(&cv, Ghost(**child), r)
        },
        _ => {
            proof {
                assert(false);
            }
            Err(EvalError::Overflow)
        },
    }
}

} // verus!
