//! Shares of a whole, compared without rounding.
use vstd::prelude::*;

verus! {

/// A share, as a fraction of two integers.
#[derive(Clone, Copy, Debug, PartialEq, Eq, Structural)]
pub struct Ratio {
    /// The part.
    pub numerator: u64,
    /// The whole.
    pub denominator: u64,
}

impl Ratio {
    /// The whole is not zero.
    pub open spec fn wf(self) -> bool {
        self.denominator > 0
    }

    /// This share is at least as large as another.
    pub open spec fn reaches(self, other: Ratio) -> bool {
        self.numerator * other.denominator >= other.numerator * self.denominator
    }

    /// A share.
    pub fn new(numerator: u64, denominator: u64) -> (ratio: Self)
        ensures
            ratio == (Ratio { numerator, denominator }),
    {
        Ratio { numerator, denominator }
    }

    /// Whether this share is at least as large as another.
    pub fn at_least(&self, other: &Ratio) -> (reached: bool)
        ensures
            reached == self.reaches(*other),
    {
        proof {
            product_fits(self.numerator, other.denominator);
            product_fits(other.numerator, self.denominator);
        }
        self.numerator as u128 * other.denominator as u128 >= other.numerator as u128
            * self.denominator as u128
    }

    /// Whether this share is at least half as large as another.
    pub fn at_least_half(&self, other: &Ratio) -> (reached: bool)
        ensures
            reached == (2 * (self.numerator * other.denominator) >= other.numerator
                * self.denominator),
    {
        proof {
            product_fits(self.numerator, other.denominator);
            product_fits(other.numerator, self.denominator);
        }
        let left: u128 = self.numerator as u128 * other.denominator as u128;
        let right: u128 = other.numerator as u128 * self.denominator as u128;
        left >= right / 2 + right % 2
    }
}

/// The product of two 64-bit numbers fits into 128 bits.
pub proof fn product_fits(a: u64, b: u64)
    ensures
        0 <= a * b <= u128::MAX,
{
    assert(0 <= a * b <= 0xffff_ffff_ffff_ffff * 0xffff_ffff_ffff_ffff) by (nonlinear_arith)
        requires
            0 <= a <= 0xffff_ffff_ffff_ffff,
            0 <= b <= 0xffff_ffff_ffff_ffff,
    ;
}

/// A product of two 64-bit numbers and another one fit into 128 bits together.
pub proof fn product_and_sum_fit(a: u64, b: u64, c: u64)
    ensures
        0 <= a * b + c <= u128::MAX,
{
    assert(0 <= a * b <= 0xffff_ffff_ffff_ffff * 0xffff_ffff_ffff_ffff) by (nonlinear_arith)
        requires
            0 <= a <= 0xffff_ffff_ffff_ffff,
            0 <= b <= 0xffff_ffff_ffff_ffff,
    ;
}

/// Law: of two shares one reaches the other, and reaching is transitive.
pub proof fn ratios_are_ordered(a: Ratio, b: Ratio, c: Ratio)
    requires
        a.wf(),
        b.wf(),
        c.wf(),
    ensures
        a.reaches(b) || b.reaches(a),
        a.reaches(b) && b.reaches(c) ==> a.reaches(c),
{
    if a.reaches(b) && b.reaches(c) {
        let (an, ad) = (a.numerator as int, a.denominator as int);
        let (bn, bd) = (b.numerator as int, b.denominator as int);
        let (cn, cd) = (c.numerator as int, c.denominator as int);
        assert(an * cd >= cn * ad) by (nonlinear_arith)
            requires
                an * bd >= bn * ad,
                bn * cd >= cn * bd,
                ad > 0,
                bd > 0,
                cd > 0,
        ;
    }
}

} // verus!
