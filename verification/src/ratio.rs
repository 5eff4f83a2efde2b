//! Exact nonnegative rationals.
//!
//! Quantities that the feature extractor reports as quotients (means,
//! rates, per-direction ratios) are carried as exact numerator/denominator
//! pairs; turning them into floating point is left to the presentation
//! layer outside the verified core. A quotient with a zero divisor is
//! represented as the zero rational, which is the library's uniform
//! "degrade to zero, never fail" policy for empty inputs.

use vstd::prelude::*;

verus! {

/// An exact nonnegative rational; `den` is never 0.
#[derive(Clone, Copy, Debug, PartialEq, Eq, Structural)]
pub struct Ratio {
    pub num: u128,
    pub den: u128,
}

impl Ratio {
    /// Structural well-formedness: the denominator is positive.
    pub open spec fn wf(self) -> bool {
        self.den >= 1
    }

    /// The rational `self` equals `n / d` as a real quotient.
    pub open spec fn is_quotient(self, n: int, d: int) -> bool {
        self.num * d == n * self.den
    }

    /// The zero rational.
    pub open spec fn spec_zero() -> Ratio {
        Ratio { num: 0, den: 1 }
    }

    /// The zero rational.
    pub fn zero() -> (r: Ratio)
        ensures
            r == Ratio::spec_zero(),
            r.wf(),
    {
        Ratio { num: 0, den: 1 }
    }

    /// The quotient `num / den`, or zero when `den` is 0.
    pub fn frac_or_zero(num: u128, den: u128) -> (r: Ratio)
        ensures
            den == 0 ==> r == Ratio::spec_zero(),
            den > 0 ==> r == (Ratio { num, den }),
            r.wf(),
    {
        if den == 0 {
            Ratio { num: 0, den: 1 }
        } else {
            Ratio { num, den }
        }
    }
}

/// `a * b`, or `None` when the product does not fit in `u128`.
pub fn checked_mul_u128(a: u128, b: u128) -> (r: Option<u128>)
    ensures
        a * b <= u128::MAX ==> r == Some((a * b) as u128),
        a * b > u128::MAX ==> r is None,
{
    if b == 0 {
        Some(0)
    } else {
        let q = u128::MAX / b;
        if a <= q {
            proof {
                assert(a * b <= (u128::MAX as int / b as int) * b <= u128::MAX)
                    by (nonlinear_arith)
                    requires
                        0 <= a <= u128::MAX as int / b as int,
                        b >= 1,
                ;
            }
            Some(a * b)
        } else {
            proof {
                assert(a * b > u128::MAX) by (nonlinear_arith)
                    requires
                        a > u128::MAX as int / b as int,
                        b >= 1,
                        a <= u128::MAX,
                        b <= u128::MAX,
                ;
            }
            None
        }
    }
}

} // verus!
