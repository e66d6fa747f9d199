//! Exact fractions of machine integers.

use vstd::prelude::*;

verus! {

/// A non-negative fraction `num / den`, kept as two integers so that no
/// rounding enters the engine.
#[derive(Clone, Copy, Debug, PartialEq, Eq, Structural)]
pub struct Ratio {
    pub num: u64,
    pub den: u64,
}

impl Ratio {
    /// The denominator is not zero.
    pub open spec fn wf(self) -> bool {
        self.den > 0
    }

    /// `self <= other` as fractions, for well-formed operands.
    pub open spec fn le(self, other: Ratio) -> bool {
        self.num * other.den <= other.num * self.den
    }

    /// `self < other` as fractions, for well-formed operands.
    pub open spec fn lt(self, other: Ratio) -> bool {
        self.num * other.den < other.num * self.den
    }

    /// The fraction is zero.
    pub open spec fn is_zero(self) -> bool {
        self.num == 0
    }

    /// The fraction is one.
    pub open spec fn is_one(self) -> bool {
        self.num == self.den
    }
}

} // verus!
