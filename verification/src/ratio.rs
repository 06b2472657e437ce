//! Exact non-negative rational numbers.
//!
//! Progress fractions and rates are quotients of small integers (a tick's
//! `done / total` scaled by a fixed phase weight), so they are kept exactly
//! as a numerator/denominator pair instead of being rounded into some fixed
//! precision. Comparisons are by cross multiplication, carried out in `u128`
//! so they can never overflow.

use vstd::prelude::*;

verus! {

/// A non-negative rational number `num / den`. Well-formed values have
/// `den > 0`.
#[derive(Clone, Copy, Debug, PartialEq, Eq, Structural)]
pub struct Ratio {
    pub num: u64,
    pub den: u64,
}

impl Ratio {
    /// Well-formedness: the denominator is positive.
    pub open spec fn wf(self) -> bool {
        self.den > 0
    }

    /// `self <= other` as rationals: `a/b <= c/d  <=>  a*d <= c*b`.
    pub open spec fn le(self, other: Ratio) -> bool {
        self.num * other.den <= other.num * self.den
    }

    /// The larger of two rationals, `self` if they are equal in value.
    pub open spec fn spec_max(self, other: Ratio) -> Ratio {
        if self.le(other) && !other.le(self) {
            other
        } else {
            self
        }
    }

    /// The rational zero.
    pub fn zero() -> (r: Ratio)
        ensures
            r == (Ratio { num: 0u64, den: 1u64 }),
    {
        Ratio { num: 0, den: 1 }
    }

    /// Decides `self <= other` exactly, by cross multiplication in `u128`.
    pub fn le_exec(&self, other: &Ratio) -> (r: bool)
        ensures
            r == self.le(*other),
    {
        proof {
            vstd::arithmetic::mul::lemma_mul_upper_bound(
                self.num as int,
                u64::MAX as int,
                other.den as int,
                u64::MAX as int,
            );
            vstd::arithmetic::mul::lemma_mul_upper_bound(
                other.num as int,
                u64::MAX as int,
                self.den as int,
                u64::MAX as int,
            );
        }
        (self.num as u128) * (other.den as u128) <= (other.num as u128) * (self.den as u128)
    }

    /// The larger of two rationals, `self` if they are equal in value.
    pub fn max(self, other: Ratio) -> (r: Ratio)
        ensures
            r == self.spec_max(other),
            self.le(r),
            other.le(r),
    {
        proof {
            lemma_ratio_le_total(self, other);
            lemma_ratio_le_refl(self);
            lemma_ratio_le_refl(other);
        }
        if self.le_exec(&other) && !other.le_exec(&self) {
            other
        } else {
            self
        }
    }
}

/// `le` is reflexive.
pub proof fn lemma_ratio_le_refl(a: Ratio)
    ensures
        a.le(a),
{
}

/// `le` is total: of two rationals, one is at most the other.
pub proof fn lemma_ratio_le_total(a: Ratio, b: Ratio)
    ensures
        a.le(b) || b.le(a),
{
}

/// `le` is transitive on well-formed rationals.
pub proof fn lemma_ratio_le_trans(a: Ratio, b: Ratio, c: Ratio)
    by (nonlinear_arith)
    requires
        a.wf(),
        b.wf(),
        c.wf(),
        a.le(b),
        b.le(c),
    ensures
        a.le(c),
{
}

} // verus!
