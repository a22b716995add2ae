//! Index ranges.
//!
//! A range `{from, to, step}` denotes the indices `from, from + step,
//! from + 2*step, ...` up to and including `to`. A positive `step` is the
//! range's invariant; `from > to` denotes the empty range.

use vstd::prelude::*;
use vstd::arithmetic::div_mod::lemma_fundamental_div_mod;

verus! {

/// An inclusive index range with a positive stride.
#[derive(Clone, Copy, Debug, PartialEq, Eq, Structural)]
pub struct Range {
    pub from: u64,
    pub to: u64,
    pub step: u64,
}

impl Range {
    /// The range invariant: the stride is positive.
    pub open spec fn wf(self) -> bool {
        self.step >= 1
    }

    /// How many indices the range denotes:
    /// `floor((to - from) / step) + 1`, or zero when `from > to`.
    pub open spec fn count(self) -> nat {
        if self.from > self.to {
            0
        } else {
            (((self.to - self.from) / (self.step as int)) + 1) as nat
        }
    }

    /// The `i`-th denoted index, `from + i * step`.
    pub open spec fn index_at(self, i: int) -> nat {
        (self.from + i * self.step) as nat
    }

    /// Computes how many indices the range denotes; `None` for the one
    /// degenerate range whose count does not fit in a machine word.
    pub fn count_exec(&self) -> (n: Option<u64>)
        requires
            self.wf(),
        ensures
            n matches Some(c) ==> c == self.count(),
            n is Some <==> self.count() <= u64::MAX,
    {
        if self.from > self.to {
            Some(0)
        } else {
            let span = self.to - self.from;
            let q = span / self.step;
            proof {
                lemma_div_le(span as int, self.step as int);
            }
            q.checked_add(1)
        }
    }
}

/// Division by a positive integer does not increase a non-negative value.
proof fn lemma_div_le(x: int, d: int)
    requires
        x >= 0,
        d >= 1,
    ensures
        0 <= x / d <= x,
{
    lemma_fundamental_div_mod(x, d);
    assert(x == d * (x / d) + x % d);
    assert(x / d >= 0) by (nonlinear_arith)
        requires
            x >= 0,
            d >= 1,
    ;
    assert(d * (x / d) >= x / d) by (nonlinear_arith)
        requires
            d >= 1,
            x / d >= 0,
    ;
}

/// Every denoted index lies at or below `to`.
pub proof fn lemma_index_at_bound(r: Range, i: int)
    requires
        r.wf(),
        r.from <= r.to,
        0 <= i < r.count(),
    ensures
        r.from <= r.index_at(i) <= r.to,
{
    let span = r.to - r.from;
    let d = r.step as int;
    let q = span / d;
    lemma_fundamental_div_mod(span, d);
    lemma_div_le(span, d);
    assert(i * d <= q * d) by (nonlinear_arith)
        requires
            0 <= i <= q,
            d >= 1,
    ;
    assert(q * d <= span) by {
        assert(span == d * q + span % d);
        assert(span % d >= 0);
    }
    assert(i * d >= 0) by (nonlinear_arith)
        requires
            i >= 0,
            d >= 1,
    ;
}

} // verus!
