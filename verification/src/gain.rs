//! The velocity curve: how hard a key was struck decides how loud it sounds.

use vstd::prelude::*;
use crate::ratio::Ratio;

verus! {

/// Added to the velocity before scaling, so that no strike is silent.
pub const GAIN_OFFSET: u64 = 25;

/// Divisor of the velocity curve; the hardest strike, 127, has gain one.
pub const GAIN_SCALE: u64 = 152;

/// The gain of a strike: `(velocity + GAIN_OFFSET) / GAIN_SCALE`.
pub open spec fn gain(velocity: u8) -> Ratio {
    Ratio { num: (velocity + GAIN_OFFSET) as u64, den: GAIN_SCALE }
}

/// Computes the gain of a strike of the given velocity.
pub fn velocity_conversion(velocity: u8) -> (g: Ratio)
    ensures
        g == gain(velocity),
{
    Ratio { num: velocity as u64 + GAIN_OFFSET, den: GAIN_SCALE }
}

/// A harder strike is never quieter than a softer one.
pub proof fn gain_is_monotone(soft: u8, hard: u8)
    requires
        soft <= hard,
    ensures
        gain(soft).le(gain(hard)),
        soft < hard ==> gain(soft).lt(gain(hard)),
{
    assert(gain(soft).den == 152 && gain(hard).den == 152);
}

/// Every gain is a proper fraction above zero, and none of a 7-bit velocity
/// exceeds one.
pub proof fn gain_is_positive(velocity: u8)
    ensures
        gain(velocity).wf(),
        !gain(velocity).is_zero(),
        velocity <= 127 ==> gain(velocity).num <= gain(velocity).den,
        velocity == 127 ==> gain(velocity).is_one(),
{
}

} // verus!
