//! Exact fractions of a pass.
//!
//! Positions inside an animation are kept as fractions of whole numbers, so
//! that every statement about them is exact. A host that works with floating
//! point converts at its own boundary.

use vstd::prelude::*;

verus! {

/// A mathematical fraction `num / den` of one pass of an animation.
pub ghost struct Ratio {
    pub num: nat,
    pub den: nat,
}

impl Ratio {
    /// The fraction at the very start of a pass.
    pub open spec fn zero() -> Ratio {
        Ratio { num: 0, den: 1 }
    }

    /// The fraction at the very end of a pass.
    pub open spec fn one() -> Ratio {
        Ratio { num: 1, den: 1 }
    }

    /// A fraction is valid when its denominator is not zero.
    pub open spec fn valid(self) -> bool {
        self.den > 0
    }

    /// The fraction denotes exactly zero.
    pub open spec fn is_zero(self) -> bool {
        self.den > 0 && self.num == 0
    }

    /// The fraction denotes exactly one.
    pub open spec fn is_one(self) -> bool {
        self.den > 0 && self.num == self.den
    }

    /// The integer part of the fraction.
    pub open spec fn whole(self) -> nat {
        self.num / self.den
    }

    /// The time reached after this fraction of `duration`, rounded down.
    pub open spec fn scale(self, duration: nat) -> nat {
        (duration * self.num) / self.den
    }
}

/// A fraction `num / den` of one pass of an animation, as plain integers.
///
/// `den` must not be zero. Values above one are meaningful where a position
/// beyond the end of a pass is asked for.
#[derive(Clone, Copy, Debug, PartialEq, Eq, Structural)]
pub struct Progress {
    /// Numerator.
    pub num: u64,
    /// Denominator; never zero in a valid value.
    pub den: u64,
}

impl View for Progress {
    type V = Ratio;

    open spec fn view(&self) -> Ratio {
        Ratio { num: self.num as nat, den: self.den as nat }
    }
}

impl Progress {
    /// Builds the fraction `num / den`.
    pub fn new(num: u64, den: u64) -> (p: Progress)
        ensures
            p.num == num,
            p.den == den,
    {
        Progress { num, den }
    }

    /// The start of a pass.
    pub fn zero() -> (p: Progress)
        ensures
            p@ == Ratio::zero(),
    {
        Progress { num: 0, den: 1 }
    }

    /// The end of a pass.
    pub fn one() -> (p: Progress)
        ensures
            p@ == Ratio::one(),
    {
        Progress { num: 1, den: 1 }
    }

    /// The integer part of the fraction.
    pub fn whole(self) -> (w: u64)
        requires
            self@.valid(),
        ensures
            w == self@.whole(),
    {
        self.num / self.den
    }

    /// The time reached after this fraction of `duration`, rounded down.
    pub fn scale(self, duration: u64) -> (t: u128)
        requires
            self@.valid(),
        ensures
            t == self@.scale(duration as nat),
    {
        let d: u128 = duration as u128;
        let n: u128 = self.num as u128;
        assert(d * n <= 0xffff_ffff_ffff_ffff * 0xffff_ffff_ffff_ffff) by (nonlinear_arith)
            requires
                0 <= d <= 0xffff_ffff_ffff_ffff,
                0 <= n <= 0xffff_ffff_ffff_ffff,
        ;
        (d * n) / (self.den as u128)
    }
}

} // verus!
