//! The voices that currently sound, at most one for each key.

use vstd::prelude::*;
use crate::model::{
    attached, contributions, has_headroom, holds, released, released_is_well_formed, stepped,
    stepped_is_well_formed, stepped_push, voice_of, well_formed,
};
use crate::voice::{Contribution, NoteInfo, Voice};

verus! {

/// Index of the voice that sounds the key, if there is one.
fn find(voices: &Vec<NoteInfo>, key: u8) -> (found: Option<usize>)
    ensures
        match found {
            Some(i) => i < voices.len() && voices[i as int]@.key == key,
            None => forall|i: int| 0 <= i < voices.len() ==> (#[trigger] voices[i])@.key != key,
        },
{
    let mut i: usize = 0;
    while i < voices.len()
        invariant
            i <= voices.len(),
            forall|j: int| 0 <= j < i ==> (#[trigger] voices[j])@.key != key,
        decreases voices.len() - i,
    {
        if voices[i].key() == key {
            return Some(i);
        }
        i = i + 1;
    }
    None
}

/// The voices that currently sound.
pub struct VoiceRegistry {
    voices: Vec<NoteInfo>,
    /// Buffer for the contributions to one sample, kept between buffers of
    /// output so that filling one need not allocate.
    scratch: Vec<Contribution>,
}

impl View for VoiceRegistry {
    type V = Seq<Voice>;

    closed spec fn view(&self) -> Seq<Voice> {
        models(self.voices@)
    }
}

/// The models of the voices held.
spec fn models(notes: Seq<NoteInfo>) -> Seq<Voice> {
    notes.map_values(|n: NoteInfo| n@)
}

impl VoiceRegistry {
    /// What the scratch buffer holds. It has no part in what the registry
    /// stands for.
    pub closed spec fn spare(&self) -> Seq<Contribution> {
        self.scratch@
    }

    /// Takes the scratch buffer out of the registry, leaving an empty one.
    pub(crate) fn take_scratch(&mut self) -> (scratch: Vec<Contribution>)
        ensures
            scratch@ == old(self).spare(),
            final(self).spare() == Seq::<Contribution>::empty(),
            final(self)@ == old(self)@,
    {
        let mut scratch: Vec<Contribution> = Vec::new();
        std::mem::swap(&mut scratch, &mut self.scratch);
        scratch
    }

    /// Hands a scratch buffer to the registry.
    pub(crate) fn put_scratch(&mut self, scratch: Vec<Contribution>)
        ensures
            final(self).spare() == scratch@,
            final(self)@ == old(self)@,
    {
        self.scratch = scratch;
    }

    /// At most one voice for each key, and none that has fallen silent.
    pub open spec fn wf(&self) -> bool {
        well_formed(self@)
    }

    /// A registry in which nothing sounds.
    pub fn new() -> (registry: VoiceRegistry)
        ensures
            registry@ == Seq::<Voice>::empty(),
            registry.wf(),
    {
        let registry = VoiceRegistry { voices: Vec::new(), scratch: Vec::new() };
        assert(registry@ =~= Seq::<Voice>::empty());
        registry
    }

    /// The number of voices that sound.
    pub fn len(&self) -> (n: usize)
        ensures
            n == self@.len(),
    {
        self.voices.len()
    }

    /// The voice that sounds the key, if there is one.
    pub fn get(&self, key: u8) -> (voice: Option<NoteInfo>)
        requires
            self.wf(),
        ensures
            match voice {
                Some(note) => holds(self@, key) && note@ == voice_of(self@, key),
                None => !holds(self@, key),
            },
    {
        match find(&self.voices, key) {
            Some(i) => {
                assert(self@[i as int].key == key);
                Some(self.voices[i])
            },
            None => {
                assert forall|i: int| 0 <= i < self@.len() implies (#[trigger] self@[i]).key
                    != key by {
                    assert(self.voices[i]@.key != key);
                }
                None
            },
        }
    }

    /// A key was struck: a fresh voice starts for it, in place of the one
    /// that sounded the key before, if any.
    pub fn attach(&mut self, key: u8, velocity: u8)
        requires
            old(self).wf(),
        ensures
            final(self)@ == attached(old(self)@, key, velocity),
            final(self).wf(),
    {
        let note = NoteInfo::new(key, velocity);
        match find(&self.voices, key) {
            Some(i) => {
                assert(self@[i as int].key == key);
                self.voices.set(i, note);
                assert(self@ =~= attached(old(self)@, key, velocity));
            },
            None => {
                assert forall|i: int| 0 <= i < self@.len() implies (#[trigger] self@[i]).key
                    != key by {
                    assert(self.voices[i]@.key != key);
                }
                self.voices.push(note);
                assert(self@ =~= attached(old(self)@, key, velocity));
            },
        }
    }

    /// A key was let go: its voice, if it sounds and is not releasing yet,
    /// starts its release. Nothing happens for a key that does not sound.
    pub fn begin_release(&mut self, key: u8)
        requires
            old(self).wf(),
        ensures
            final(self)@ == released(old(self)@, key),
            final(self).wf(),
    {
        match find(&self.voices, key) {
            Some(i) => {
                assert(self@[i as int].key == key);
                let mut note = self.voices[i];
                assert(note@ == self@[i as int]);
                note.off();
                self.voices.set(i, note);
                assert(self@ =~= released(old(self)@, key));
            },
            None => {
                assert forall|i: int| 0 <= i < self@.len() implies (#[trigger] self@[i]).key
                    != key by {
                    assert(self.voices[i]@.key != key);
                }
                assert(self@ =~= released(old(self)@, key));
            },
        }
        proof {
            released_is_well_formed(old(self)@, key);
        }
    }

    /// Tells whether every clock can count `n` more samples.
    pub fn can_advance_by(&self, n: u64) -> (fits: bool)
        ensures
            fits == has_headroom(self@, n as nat),
    {
        let mut i: usize = 0;
        while i < self.voices.len()
            invariant
                i <= self.voices.len(),
                forall|j: int| 0 <= j < i ==> (#[trigger] self@[j]).elapsed + n <= u64::MAX,
            decreases self.voices.len() - i,
        {
            let time: u64 = self.voices[i].time();
            assert(self@[i as int] == self.voices[i as int]@);
            if time > u64::MAX - n {
                return false;
            }
            i = i + 1;
        }
        true
    }

    /// Produces one sample: returns what each voice adds to it, in the order
    /// in which the voices are held, then advances every clock by one and
    /// drops the voices whose release has run out.
    pub fn advance_and_mix(&mut self) -> (mix: Vec<Contribution>)
        requires
            old(self).wf(),
            has_headroom(old(self)@, 1),
        ensures
            mix@ == contributions(old(self)@),
            final(self)@ == stepped(old(self)@),
            final(self).wf(),
    {
        let mut mix: Vec<Contribution> = Vec::new();
        self.advance_and_mix_into(&mut mix);
        mix
    }

    /// Produces one sample as `advance_and_mix` does, into a buffer of the
    /// caller: what `mix` held is dropped, and what each voice adds to the
    /// sample takes its place. A buffer that is used again and again stops
    /// growing once it has held the most voices that ever sound together.
    pub fn advance_and_mix_into(&mut self, mix: &mut Vec<Contribution>)
        requires
            old(self).wf(),
            has_headroom(old(self)@, 1),
        ensures
            final(mix)@ == contributions(old(self)@),
            final(self)@ == stepped(old(self)@),
            final(self).wf(),
    {
        let n: usize = self.voices.len();
        let ghost before = self@;
        mix.clear();
        let mut kept: usize = 0;
        let mut i: usize = 0;
        assert(before.subrange(0, 0) =~= Seq::<Voice>::empty());
        assert(contributions(Seq::<Voice>::empty()) =~= Seq::<Contribution>::empty());
        assert(models(self.voices@.subrange(0, 0)) =~= Seq::<Voice>::empty());
        proof {
            stepped_is_well_formed(before);
        }
        while i < n
            invariant
                kept <= i <= n,
                n == self.voices.len(),
                n == before.len(),
                well_formed(before),
                has_headroom(before, 1),
                forall|j: int| i <= j < n ==> (#[trigger] self.voices@[j])@ == before[j],
                mix@ == contributions(before.subrange(0, i as int)),
                models(self.voices@.subrange(0, kept as int)) == stepped(
                    before.subrange(0, i as int),
                ),
            decreases n - i,
        {
            let ghost held = self.voices@;
            let mut note: NoteInfo = self.voices[i];
            assert(note@ == before[i as int]);
            if let Some(envelope) = note.envelope() {
                mix.push(
                    Contribution {
                        key: note.key(),
                        velocity: note.velocity(),
                        time: note.time(),
                        envelope,
                    },
                );
            }
            note.advance();
            if note.envelope().is_some() {
                self.voices.set(kept, note);
                assert(models(self.voices@.subrange(0, kept + 1)) =~= models(
                    held.subrange(0, kept as int),
                ).push(note@));
                kept = kept + 1;
            } else {
                assert(self.voices@.subrange(0, kept as int) =~= held.subrange(0, kept as int));
            }
            proof {
                let seen = before.subrange(0, i as int);
                let voice = before[i as int];
                assert(before.subrange(0, i + 1) =~= seen.push(voice));
                assert(contributions(seen.push(voice)) =~= contributions(seen).push(
                    voice.contribution(),
                ));
                stepped_push(seen, voice);
            }
            i = i + 1;
        }
        assert(before.subrange(0, n as int) =~= before);
        self.voices.truncate(kept);
        assert(self.voices@ =~= self.voices@.subrange(0, kept as int));
    }
}

} // verus!
