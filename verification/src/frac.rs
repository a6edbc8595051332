//! Exact non-negative rational amounts.
//!
//! A flow amount is a fraction `num / den` of two `u32` values with a
//! positive denominator.  All operations are exact: an operation whose exact
//! result has a numerator or denominator that does not fit in `u32` reports
//! failure instead of rounding.

use vstd::prelude::*;

verus! {

/// A non-negative rational number `num / den`.
#[derive(Clone, Copy, Debug, PartialEq, Eq, Structural)]
pub struct Frac {
    pub num: u32,
    pub den: u32,
}

impl Frac {
    /// A fraction is well formed when its denominator is positive.
    pub open spec fn wf(self) -> bool {
        self.den > 0
    }

    /// The two fractions denote the same rational number.
    pub open spec fn same_value(self, other: Frac) -> bool {
        self.num * other.den == other.num * self.den
    }

    /// `self` is strictly below `other` as a rational number.
    pub open spec fn spec_lt(self, other: Frac) -> bool {
        self.num * other.den < other.num * self.den
    }

    /// `self` is at most `other` as a rational number.
    pub open spec fn spec_le(self, other: Frac) -> bool {
        self.num * other.den <= other.num * self.den
    }

    pub fn new(num: u32, den: u32) -> (r: Frac)
        requires
            den > 0,
        ensures
            r == (Frac { num, den }),
    {
        Frac { num, den }
    }

    /// The rational number zero.
    pub fn zero() -> (r: Frac)
        ensures
            r == (Frac { num: 0u32, den: 1u32 }),
    {
        Frac { num: 0, den: 1 }
    }

    /// The rational number one.
    pub fn one() -> (r: Frac)
        ensures
            r == (Frac { num: 1u32, den: 1u32 }),
    {
        Frac { num: 1, den: 1 }
    }

    /// `self < other`, decided exactly by cross multiplication.
    pub fn lt(&self, other: &Frac) -> (r: bool)
        ensures
            r == self.spec_lt(*other),
    {
        proof {
            lemma_mul_u32_fits(self.num as int, other.den as int);
            lemma_mul_u32_fits(other.num as int, self.den as int);
        }
        (self.num as u128) * (other.den as u128) < (other.num as u128) * (self.den as u128)
    }

    /// `self <= other`, decided exactly by cross multiplication.
    pub fn le(&self, other: &Frac) -> (r: bool)
        ensures
            r == self.spec_le(*other),
    {
        proof {
            lemma_mul_u32_fits(self.num as int, other.den as int);
            lemma_mul_u32_fits(other.num as int, self.den as int);
        }
        (self.num as u128) * (other.den as u128) <= (other.num as u128) * (self.den as u128)
    }

    /// `self == other` as rational numbers (not as representations).
    pub fn eq_value(&self, other: &Frac) -> (r: bool)
        ensures
            r == self.same_value(*other),
    {
        proof {
            lemma_mul_u32_fits(self.num as int, other.den as int);
            lemma_mul_u32_fits(other.num as int, self.den as int);
        }
        (self.num as u128) * (other.den as u128) == (other.num as u128) * (self.den as u128)
    }

    /// `self < 1`.
    pub fn lt_one(&self) -> (r: bool)
        ensures
            r == self.spec_lt(Frac { num: 1u32, den: 1u32 }),
    {
        self.num < self.den
    }
}

/// The exact sum of two fractions; `None` when a numerator or denominator
/// of the cross-multiplied result would exceed `u32`.
pub open spec fn spec_frac_add(a: Frac, b: Frac) -> Option<Frac> {
    if a.den == b.den {
        if a.num + b.num <= u32::MAX {
            Some(Frac { num: (a.num + b.num) as u32, den: a.den })
        } else {
            None
        }
    } else {
        let n = a.num * b.den + b.num * a.den;
        let d = a.den * b.den;
        if n <= u32::MAX && d <= u32::MAX {
            Some(Frac { num: n as u32, den: d as u32 })
        } else {
            None
        }
    }
}

/// The exact product of two fractions, when it fits in the representation.
pub open spec fn spec_frac_mul(a: Frac, b: Frac) -> Option<Frac> {
    let n = a.num * b.num;
    let d = a.den * b.den;
    if n <= u32::MAX && d <= u32::MAX {
        Some(Frac { num: n as u32, den: d as u32 })
    } else {
        None
    }
}

/// The exact quotient `a / b`, when `b` is non-zero and the result fits.
pub open spec fn spec_frac_div(a: Frac, b: Frac) -> Option<Frac> {
    if b.num == 0 {
        None
    } else {
        let n = a.num * b.den;
        let d = a.den * b.num;
        if n <= u32::MAX && d <= u32::MAX {
            Some(Frac { num: n as u32, den: d as u32 })
        } else {
            None
        }
    }
}

/// The exact product `a * k` for a natural scale factor, when it fits.
pub open spec fn spec_frac_scale(a: Frac, k: u32) -> Option<Frac> {
    if a.num * k <= u32::MAX {
        Some(Frac { num: (a.num * k) as u32, den: a.den })
    } else {
        None
    }
}

/// The product of two values at most `u32::MAX` is non-negative, bounded,
/// and positive when both factors are.
pub proof fn lemma_mul_u32_fits(a: int, b: int)
    requires
        0 <= a <= u32::MAX,
        0 <= b <= u32::MAX,
    ensures
        0 <= a * b <= u32::MAX * u32::MAX,
        a > 0 && b > 0 ==> a * b > 0,
{
    assert(a * b <= u32::MAX * u32::MAX && 0 <= a * b && (a > 0 && b > 0 ==> a * b > 0))
        by (nonlinear_arith)
        requires
            0 <= a <= u32::MAX,
            0 <= b <= u32::MAX,
    ;
}

/// A product of a `u32` value, a tick factor and another `u32` value stays
/// well below `u128::MAX`.
pub proof fn lemma_mul3_fits(a: int, k: int, b: int)
    requires
        0 <= a <= u32::MAX,
        0 <= k <= 72000,
        0 <= b <= u32::MAX,
    ensures
        0 <= a * k <= u32::MAX * 72000,
        0 <= a * k * b <= u32::MAX * 72000 * u32::MAX,
{
    assert(0 <= a * k <= u32::MAX * 72000 && 0 <= a * k * b <= u32::MAX * 72000 * u32::MAX)
        by (nonlinear_arith)
        requires
            0 <= a <= u32::MAX,
            0 <= k <= 72000,
            0 <= b <= u32::MAX,
    ;
}

impl Frac {
    /// Exact addition; `None` when the result is not representable.
    pub fn checked_add(&self, other: &Frac) -> (r: Option<Frac>)
        requires
            self.wf(),
            other.wf(),
        ensures
            r == spec_frac_add(*self, *other),
            r matches Some(f) ==> f.wf() && f.num * self.den * other.den == (self.num * other.den
                + other.num * self.den) * f.den,
    {
        let r: Option<Frac> = if self.den == other.den {
            let n = (self.num as u64) + (other.num as u64);
            if n <= u32::MAX as u64 {
                Some(Frac { num: n as u32, den: self.den })
            } else {
                None
            }
        } else {
            proof {
                lemma_mul_u32_fits(self.num as int, other.den as int);
                lemma_mul_u32_fits(other.num as int, self.den as int);
                lemma_mul_u32_fits(self.den as int, other.den as int);
            }
            let n = (self.num as u128) * (other.den as u128) + (other.num as u128) * (self.den
                as u128);
            let d = (self.den as u128) * (other.den as u128);
            if n <= u32::MAX as u128 && d <= u32::MAX as u128 {
                Some(Frac { num: n as u32, den: d as u32 })
            } else {
                None
            }
        };
        proof {
            if let Some(f) = r {
                assert(f.num * self.den * other.den == (self.num * other.den + other.num
                    * self.den) * f.den) by (nonlinear_arith)
                    requires
                        self.den > 0,
                        other.den > 0,
                        (self.den == other.den && f.den == self.den && f.num == self.num
                            + other.num) || (f.den == self.den * other.den && f.num == self.num
                            * other.den + other.num * self.den),
                ;
            }
        }
        r
    }

    /// Exact multiplication; `None` when the result is not representable.
    pub fn checked_mul(&self, other: &Frac) -> (r: Option<Frac>)
        requires
            self.wf(),
            other.wf(),
        ensures
            r == spec_frac_mul(*self, *other),
            r matches Some(f) ==> f.wf() && f.num == self.num * other.num && f.den == self.den
                * other.den,
    {
        proof {
            lemma_mul_u32_fits(self.num as int, other.num as int);
            lemma_mul_u32_fits(self.den as int, other.den as int);
        }
        let n = (self.num as u128) * (other.num as u128);
        let d = (self.den as u128) * (other.den as u128);
        if n <= u32::MAX as u128 && d <= u32::MAX as u128 {
            proof {
                assert(self.den * other.den > 0) by (nonlinear_arith)
                    requires
                        self.den > 0,
                        other.den > 0,
                ;
            }
            Some(Frac { num: n as u32, den: d as u32 })
        } else {
            None
        }
    }

    /// Exact division; `None` when `other` is zero or the result is not
    /// representable.
    pub fn checked_div(&self, other: &Frac) -> (r: Option<Frac>)
        requires
            self.wf(),
            other.wf(),
        ensures
            r == spec_frac_div(*self, *other),
            r matches Some(f) ==> f.wf() && f.num == self.num * other.den && f.den == self.den
                * other.num,
    {
        if other.num == 0 {
            return None;
        }
        proof {
            lemma_mul_u32_fits(self.num as int, other.den as int);
            lemma_mul_u32_fits(self.den as int, other.num as int);
        }
        let n = (self.num as u128) * (other.den as u128);
        let d = (self.den as u128) * (other.num as u128);
        if n <= u32::MAX as u128 && d <= u32::MAX as u128 {
            proof {
                assert(self.den * other.num > 0) by (nonlinear_arith)
                    requires
                        self.den > 0,
                        other.num > 0,
                ;
            }
            Some(Frac { num: n as u32, den: d as u32 })
        } else {
            None
        }
    }

    /// Exact multiplication by a natural number; `None` when not
    /// representable.
    pub fn checked_scale(&self, k: u32) -> (r: Option<Frac>)
        requires
            self.wf(),
        ensures
            r == spec_frac_scale(*self, k),
            r matches Some(f) ==> f.wf() && f.num == self.num * k && f.den == self.den,
    {
        proof {
            lemma_mul_u32_fits(self.num as int, k as int);
        }
        let n = (self.num as u128) * (k as u128);
        if n <= u32::MAX as u128 {
            Some(Frac { num: n as u32, den: self.den })
        } else {
            None
        }
    }
}

} // verus!
