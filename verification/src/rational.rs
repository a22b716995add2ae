//! Exact rational numbers.
//!
//! Sequence values are rationals held as a numerator and a positive
//! denominator, both `i128`. Nothing is reduced: the operations compute the
//! textbook numerator/denominator formulas, and every operation is checked,
//! returning `None` when an intermediate product or sum leaves the `i128`
//! range. Two representations denote the same rational exactly when the
//! cross products agree, which is what [`rat_eq`] states.

use vstd::prelude::*;

verus! {

/// A rational number `num / den` with `den > 0` (see [`Rat::wf`]).
#[derive(Clone, Copy, Debug)]
pub struct Rat {
    pub num: i128,
    pub den: i128,
}

impl View for Rat {
    type V = (int, int);

    open spec fn view(&self) -> (int, int) {
        (self.num as int, self.den as int)
    }
}

/// A well-formed rational pair has a positive denominator.
pub open spec fn rat_wf(a: (int, int)) -> bool {
    a.1 > 0
}

/// `a` and `b` denote the same rational number.
pub open spec fn rat_eq(a: (int, int), b: (int, int)) -> bool {
    a.0 * b.1 == b.0 * a.1
}

/// The sum `a + b`, as unreduced cross-multiplied numerator over the
/// product of the denominators.
pub open spec fn rat_add(a: (int, int), b: (int, int)) -> (int, int) {
    (a.0 * b.1 + b.0 * a.1, a.1 * b.1)
}

/// The product `a * b`.
pub open spec fn rat_mul(a: (int, int), b: (int, int)) -> (int, int) {
    (a.0 * b.0, a.1 * b.1)
}

/// The negation `-a`.
pub open spec fn rat_neg(a: (int, int)) -> (int, int) {
    (-a.0, a.1)
}

/// `a` divided by a positive integer `m`.
pub open spec fn rat_div_int(a: (int, int), m: int) -> (int, int) {
    (a.0, a.1 * m)
}

/// The integer `n` as a rational.
pub open spec fn rat_of_int(n: int) -> (int, int) {
    (n, 1)
}

/// `x` lies in the range of `i128`.
pub open spec fn fits(x: int) -> bool {
    i128::MIN <= x <= i128::MAX
}

/// Every intermediate of the sum `a + b` fits in `i128`.
pub open spec fn add_ok(a: (int, int), b: (int, int)) -> bool {
    &&& fits(a.0 * b.1)
    &&& fits(b.0 * a.1)
    &&& fits(a.0 * b.1 + b.0 * a.1)
    &&& fits(a.1 * b.1)
}

/// Every intermediate of the product `a * b` fits in `i128`.
pub open spec fn mul_ok(a: (int, int), b: (int, int)) -> bool {
    &&& fits(a.0 * b.0)
    &&& fits(a.1 * b.1)
}

/// The negation `-a` fits in `i128`.
pub open spec fn neg_ok(a: (int, int)) -> bool {
    fits(-a.0)
}

/// The denominator of `a / m` fits in `i128`.
pub open spec fn div_int_ok(a: (int, int), m: int) -> bool {
    fits(a.1 * m)
}

impl Rat {
    /// The representation invariant: the denominator is positive.
    pub open spec fn wf(self) -> bool {
        rat_wf(self@)
    }

    /// Builds `num / den`; rejects a zero or negative denominator.
    pub fn new(num: i128, den: i128) -> (r: Option<Rat>)
        ensures
            r matches Some(s) ==> s.wf() && s@ == (num as int, den as int),
            r is Some <==> den > 0,
    {
        if den > 0 {
            Some(Rat { num, den })
        } else {
            None
        }
    }

    /// The integer `n` as a rational.
    pub fn from_int(n: i128) -> (r: Rat)
        ensures
            r.wf(),
            r@ == rat_of_int(n as int),
    {
        Rat { num: n, den: 1 }
    }

    /// The index `k` as a rational.
    pub fn from_index(k: u64) -> (r: Rat)
        ensures
            r.wf(),
            r@ == rat_of_int(k as int),
    {
        Rat { num: k as i128, den: 1 }
    }

    /// Checked sum; `None` exactly when an intermediate leaves `i128`.
    pub fn checked_add(&self, other: &Rat) -> (r: Option<Rat>)
        requires
            self.wf(),
            other.wf(),
        ensures
            r matches Some(s) ==> s.wf() && s@ == rat_add(self@, other@),
            r is Some <==> add_ok(self@, other@),
    {
        let n1 = match self.num.checked_mul(other.den) {
            Some(x) => x,
            None => {
                return None;
            },
        };
        let n2 = match other.num.checked_mul(self.den) {
            Some(x) => x,
            None => {
                return None;
            },
        };
        let n = match n1.checked_add(n2) {
            Some(x) => x,
            None => {
                return None;
            },
        };
        let d = match self.den.checked_mul(other.den) {
            Some(x) => x,
            None => {
                return None;
            },
        };
        proof {
            assert(self@.1 * other@.1 > 0) by (nonlinear_arith)
                requires
                    self@.1 > 0,
                    other@.1 > 0,
            ;
        }
        Some(Rat { num: n, den: d })
    }

    /// Checked product; `None` exactly when an intermediate leaves `i128`.
    pub fn checked_mul(&self, other: &Rat) -> (r: Option<Rat>)
        requires
            self.wf(),
            other.wf(),
        ensures
            r matches Some(s) ==> s.wf() && s@ == rat_mul(self@, other@),
            r is Some <==> mul_ok(self@, other@),
    {
        let n = match self.num.checked_mul(other.num) {
            Some(x) => x,
            None => {
                return None;
            },
        };
        let d = match self.den.checked_mul(other.den) {
            Some(x) => x,
            None => {
                return None;
            },
        };
        proof {
            assert(self@.1 * other@.1 > 0) by (nonlinear_arith)
                requires
                    self@.1 > 0,
                    other@.1 > 0,
            ;
        }
        Some(Rat { num: n, den: d })
    }

    /// Checked negation; `None` only for the unrepresentable `-i128::MIN`.
    pub fn checked_neg(&self) -> (r: Option<Rat>)
        requires
            self.wf(),
        ensures
            r matches Some(s) ==> s.wf() && s@ == rat_neg(self@),
            r is Some <==> neg_ok(self@),
    {
        let zero: i128 = 0;
        match zero.checked_sub(self.num) {
            Some(n) => Some(Rat { num: n, den: self.den }),
            None => None,
        }
    }

    /// Checked division by a positive integer `m`.
    pub fn checked_div_int(&self, m: u32) -> (r: Option<Rat>)
        requires
            self.wf(),
            m >= 1,
        ensures
            r matches Some(s) ==> s.wf() && s@ == rat_div_int(self@, m as int),
            r is Some <==> div_int_ok(self@, m as int),
    {
        match self.den.checked_mul(m as i128) {
            Some(d) => {
                proof {
                    assert(self@.1 * (m as int) > 0) by (nonlinear_arith)
                        requires
                            self@.1 > 0,
                            m >= 1,
                    ;
                }
                Some(Rat { num: self.num, den: d })
            },
            None => None,
        }
    }

    /// Whether `self` and `other` denote the same rational; `None` when a
    /// cross product leaves `i128`.
    pub fn same_value(&self, other: &Rat) -> (r: Option<bool>)
        requires
            self.wf(),
            other.wf(),
        ensures
            r matches Some(b) ==> b == rat_eq(self@, other@),
            r is Some <==> fits(self@.0 * other@.1) && fits(other@.0 * self@.1),
    {
        let c1 = match self.num.checked_mul(other.den) {
            Some(x) => x,
            None => {
                return None;
            },
        };
        let c2 = match other.num.checked_mul(self.den) {
            Some(x) => x,
            None => {
                return None;
            },
        };
        Some(c1 == c2)
    }

    /// The truncated non-negative integer part, clamped into `u64`.
    ///
    /// A negative rational truncates to zero; a quotient beyond `u64::MAX`
    /// saturates at `u64::MAX`. This mirrors how a real-valued parameter is
    /// read as a count.
    pub fn trunc_to_u64(&self) -> (r: u64)
        requires
            self.wf(),
        ensures
            r as int == rat_trunc(self@),
    {
        if self.num <= 0 {
            0
        } else {
            let q: u128 = (self.num as u128) / (self.den as u128);
            if q > u64::MAX as u128 {
                u64::MAX
            } else {
                q as u64
            }
        }
    }
}

/// The truncated non-negative integer part of `a`, clamped into `u64`.
pub open spec fn rat_trunc(a: (int, int)) -> int {
    if a.0 <= 0 {
        0
    } else if a.0 / a.1 > u64::MAX as int {
        u64::MAX as int
    } else {
        a.0 / a.1
    }
}

} // verus!
