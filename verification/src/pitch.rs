//! Tuning: twelve-tone equal temperament around the A above middle C.

use vstd::prelude::*;

verus! {

/// The key of the reference pitch, the A above middle C.
pub const A4_KEY: u8 = 69;

/// The frequency of the reference pitch in hertz.
pub const A4_HERTZ: u64 = 440;

/// Semitones to the octave. An octave doubles the frequency.
pub const SEMITONES_PER_OCTAVE: u8 = 12;

/// The interval from the reference pitch up to the key, in semitones;
/// negative for a key below it. The frequency of the key is
/// `A4_HERTZ * 2^(interval / SEMITONES_PER_OCTAVE)`.
pub open spec fn interval_from_a4(key: u8) -> int {
    key - A4_KEY
}

/// Computes the interval from the reference pitch up to the key.
pub fn semitones_from_a4(key: u8) -> (semitones: i16)
    ensures
        semitones == interval_from_a4(key),
{
    key as i16 - A4_KEY as i16
}

/// The reference pitch is no semitone from itself, and the key twelve keys
/// up is one octave of semitones further from it.
pub proof fn octave_is_twelve_semitones(key: u8, octave_up: u8)
    requires
        octave_up == key + 12,
    ensures
        interval_from_a4(A4_KEY) == 0,
        interval_from_a4(octave_up) == interval_from_a4(key) + SEMITONES_PER_OCTAVE,
{
}

} // verus!
