//! One sounding note: its key, how hard it was struck, its clock, and
//! whether and when it was let go.

use vstd::prelude::*;
use crate::envelope::{
    release_length, release_samples, release_samples_bounds, Envelope, ATTACK_SAMPLES,
};

verus! {

/// The mathematical model of a voice. Its clock is unbounded.
pub struct Voice {
    /// The key that sounds.
    pub key: u8,
    /// How hard the key was struck.
    pub velocity: u8,
    /// Samples produced since the strike.
    pub elapsed: nat,
    /// The reading of the clock when the key was let go, if it was.
    pub released_at: Option<nat>,
}

impl Voice {
    /// The voice of a key that has just been struck.
    pub open spec fn fresh(key: u8, velocity: u8) -> Voice {
        Voice { key, velocity, elapsed: 0, released_at: None }
    }

    /// A release never lies in the future of the clock.
    pub open spec fn wf(self) -> bool {
        self.released_at matches Some(at) ==> at <= self.elapsed
    }

    /// The voice after its key was let go. Letting go twice changes nothing:
    /// the first release stands.
    pub open spec fn released(self) -> Voice {
        if self.released_at is None {
            Voice { released_at: Some(self.elapsed), ..self }
        } else {
            self
        }
    }

    /// The voice one sample later.
    pub open spec fn advanced(self) -> Voice {
        Voice { elapsed: self.elapsed + 1, ..self }
    }

    /// The voice `n` samples later.
    pub open spec fn advanced_by(self, n: nat) -> Voice {
        Voice { elapsed: self.elapsed + n, ..self }
    }

    /// Samples still to come before a released voice falls silent; zero once
    /// it has.
    pub open spec fn remaining(self) -> nat
        recommends
            self.released_at is Some,
    {
        let since = self.elapsed - self.released_at->0;
        if since >= release_samples(self.velocity) {
            0
        } else {
            (release_samples(self.velocity) - since) as nat
        }
    }

    /// The envelope of the voice, or `None` once its release has run out.
    pub open spec fn envelope(self) -> Option<Envelope> {
        match self.released_at {
            Some(at) => {
                let since = self.elapsed - at;
                let length = release_samples(self.velocity);
                if since >= length {
                    None
                } else {
                    Some(Envelope::Release { elapsed: since as u64, length })
                }
            },
            None => {
                if self.elapsed < ATTACK_SAMPLES {
                    Some(Envelope::Attack { elapsed: self.elapsed as u64 })
                } else {
                    Some(Envelope::Sustain)
                }
            },
        }
    }

    /// The voice still has something to contribute.
    pub open spec fn sounding(self) -> bool {
        self.envelope() is Some
    }

    /// What the voice adds to the current sample.
    pub open spec fn contribution(self) -> Contribution
        recommends
            self.sounding(),
    {
        Contribution {
            key: self.key,
            velocity: self.velocity,
            time: self.elapsed as u64,
            envelope: self.envelope()->0,
        }
    }
}

/// Letting a key go does not silence its voice at once: no release is
/// empty. The release of a voice that was held starts at its first sample.
pub proof fn released_voice_sounds(v: Voice)
    requires
        v.wf(),
        v.sounding(),
    ensures
        v.released().wf(),
        v.released().sounding(),
        v.released_at is None ==> v.released().envelope() == Some(
            Envelope::Release { elapsed: 0, length: release_samples(v.velocity) },
        ),
{
    release_samples_bounds(v.velocity);
}

/// The share of one voice in one sample. The sample it stands for is
/// `gain(velocity) * sin(w(key) * time) * level(envelope)`, where `w` is the
/// angular step of the key per sample.
#[derive(Clone, Copy, Debug, PartialEq, Eq, Structural)]
pub struct Contribution {
    /// The key that sounds.
    pub key: u8,
    /// How hard the key was struck.
    pub velocity: u8,
    /// The reading of the voice's clock for this sample.
    pub time: u64,
    /// The envelope of the voice at this sample.
    pub envelope: Envelope,
}

/// A voice as the engine holds it.
#[derive(Clone, Copy, Debug, PartialEq, Eq, Hash)]
pub struct NoteInfo {
    time: u64,
    key: u8,
    release: Option<u64>,
    velocity: u8,
}

impl View for NoteInfo {
    type V = Voice;

    closed spec fn view(&self) -> Voice {
        Voice {
            key: self.key,
            velocity: self.velocity,
            elapsed: self.time as nat,
            released_at: match self.release {
                Some(at) => Some(at as nat),
                None => None,
            },
        }
    }
}

impl NoteInfo {
    /// The release, if any, does not lie in the future of the clock.
    pub open spec fn wf(&self) -> bool {
        self@.wf()
    }

    /// The clock can be advanced once more without running over.
    pub open spec fn can_advance(&self) -> bool {
        self@.elapsed < u64::MAX
    }

    /// The voice of a key that has just been struck.
    pub fn new(key: u8, velocity: u8) -> (note: NoteInfo)
        ensures
            note@ == Voice::fresh(key, velocity),
            note.wf(),
    {
        NoteInfo { time: 0, key, release: None, velocity }
    }

    /// The key that sounds.
    pub fn key(&self) -> (key: u8)
        ensures
            key == self@.key,
    {
        self.key
    }

    /// How hard the key was struck.
    pub fn velocity(&self) -> (velocity: u8)
        ensures
            velocity == self@.velocity,
    {
        self.velocity
    }

    /// Samples produced since the strike.
    pub fn time(&self) -> (time: u64)
        ensures
            time == self@.elapsed,
    {
        self.time
    }

    /// The reading of the clock when the key was let go, if it was.
    pub fn release(&self) -> (release: Option<u64>)
        ensures
            match release {
                Some(at) => self@.released_at == Some(at as nat),
                None => self@.released_at is None,
            },
    {
        self.release
    }

    /// Lets the key go: the release starts at the current reading of the
    /// clock. A voice that is already releasing is left as it is.
    pub fn off(&mut self)
        requires
            old(self).wf(),
        ensures
            final(self)@ == old(self)@.released(),
            final(self).wf(),
    {
        if self.release.is_none() {
            self.release = Some(self.time);
        }
    }

    /// The envelope of the voice at the current reading of its clock, or
    /// `None` once its release has run out.
    pub fn envelope(&self) -> (envelope: Option<Envelope>)
        requires
            self.wf(),
        ensures
            envelope == self@.envelope(),
            envelope matches Some(e) ==> e.wf(),
    {
        match self.release {
            Some(at) => {
                let since: u64 = self.time - at;
                let length: u64 = release_length(self.velocity);
                if since >= length {
                    None
                } else {
                    Some(Envelope::Release { elapsed: since, length })
                }
            },
            None => {
                if self.time < ATTACK_SAMPLES {
                    Some(Envelope::Attack { elapsed: self.time })
                } else {
                    Some(Envelope::Sustain)
                }
            },
        }
    }

    /// Advances the clock by one sample.
    pub fn advance(&mut self)
        requires
            old(self).wf(),
            old(self).can_advance(),
        ensures
            final(self)@ == old(self)@.advanced(),
            final(self).wf(),
    {
        self.time = self.time + 1;
    }
}

} // verus!
