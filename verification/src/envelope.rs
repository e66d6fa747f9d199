//! The amplitude envelope of a voice: a linear attack, a sustain at full
//! level, and a linear release whose length shrinks as the strike gets harder.

use vstd::prelude::*;
use crate::ratio::Ratio;

verus! {

/// Samples per second that the envelope's durations are measured against.
pub const SAMPLE_RATE: u64 = 48000;

/// Length of the attack ramp in samples: ten milliseconds.
pub const ATTACK_SAMPLES: u64 = 480;

/// Length in samples of the release of a strike of velocity one: a tenth of
/// a second. A strike of velocity `v` releases `v` times as fast.
pub const RELEASE_SAMPLES: u64 = 4800;

/// Where a sounding voice stands in its envelope.
#[derive(Clone, Copy, Debug, PartialEq, Eq, Structural)]
pub enum Envelope {
    /// Rising: `elapsed` samples into the attack ramp.
    Attack { elapsed: u64 },
    /// Held at full level.
    Sustain,
    /// Falling: `elapsed` samples into a release of `length` samples.
    Release { elapsed: u64, length: u64 },
}

impl Envelope {
    /// The ramp position lies inside its ramp.
    pub open spec fn wf(self) -> bool {
        match self {
            Envelope::Attack { elapsed } => elapsed < ATTACK_SAMPLES,
            Envelope::Sustain => true,
            Envelope::Release { elapsed, length } => elapsed < length,
        }
    }

    /// The level of the envelope, between zero and one:
    /// `elapsed / ATTACK_SAMPLES` while rising, one while held, and
    /// `1 - elapsed / length` while falling.
    pub open spec fn level_of(self) -> Ratio {
        match self {
            Envelope::Attack { elapsed } => Ratio { num: elapsed, den: ATTACK_SAMPLES },
            Envelope::Sustain => Ratio { num: 1, den: 1 },
            Envelope::Release { elapsed, length } => Ratio {
                num: (length - elapsed) as u64,
                den: length,
            },
        }
    }

    /// Computes the level of the envelope as an exact fraction.
    pub fn level(&self) -> (r: Ratio)
        requires
            self.wf(),
        ensures
            r == self.level_of(),
            r.wf(),
            r.num <= r.den,
    {
        match *self {
            Envelope::Attack { elapsed } => Ratio { num: elapsed, den: ATTACK_SAMPLES },
            Envelope::Sustain => Ratio { num: 1, den: 1 },
            Envelope::Release { elapsed, length } => Ratio { num: length - elapsed, den: length },
        }
    }
}

/// How many samples the release of a strike of the given velocity lasts:
/// `RELEASE_SAMPLES / velocity`, rounded down. A strike of velocity zero has
/// the longest release the clock can count.
pub open spec fn release_samples(velocity: u8) -> u64 {
    if velocity == 0 {
        u64::MAX
    } else {
        RELEASE_SAMPLES / (velocity as u64)
    }
}

/// No release is empty, and the release of a strike that was not silent is
/// at most `RELEASE_SAMPLES` long.
pub proof fn release_samples_bounds(velocity: u8)
    ensures
        release_samples(velocity) > 0,
        velocity > 0 ==> release_samples(velocity) <= RELEASE_SAMPLES,
{
    if velocity > 0 {
        let v: int = velocity as int;
        assert(0 < 4800int / v <= 4800) by (nonlinear_arith)
            requires
                0 < v <= 255,
        ;
    }
}

/// Computes the length of the release of a strike of the given velocity.
pub fn release_length(velocity: u8) -> (length: u64)
    ensures
        length == release_samples(velocity),
{
    if velocity == 0 {
        u64::MAX
    } else {
        RELEASE_SAMPLES / (velocity as u64)
    }
}

} // verus!
