//! What holds of the voices over time, whatever the events were.

use vstd::prelude::*;
use crate::envelope::{
    release_samples, release_samples_bounds, Envelope, ATTACK_SAMPLES, RELEASE_SAMPLES,
};
use crate::gain::gain;
use crate::midi::{applied, decoded, MidiEvent};
use crate::model::{
    attached, contributions, distinct_keys, holds, released, released_is_well_formed, stepped,
    stepped_image, stepped_is_well_formed, stepped_origin, steps, voice_of, well_formed,
};
use crate::voice::{Contribution, Voice};

verus! {

/// Among voices with distinct keys, the voice of a key is the one voice
/// that sounds it.
pub proof fn voice_is_unique(s: Seq<Voice>, key: u8, i: int)
    requires
        distinct_keys(s),
        0 <= i < s.len(),
        s[i].key == key,
    ensures
        holds(s, key),
        voice_of(s, key) == s[i],
{
    let c = choose|c: int| 0 <= c < s.len() && (#[trigger] s[c]).key == key;
    assert(c == i) by {
        if c < i {
            assert(s[c].key != s[i].key);
        } else if i < c {
            assert(s[i].key != s[c].key);
        }
    }
}

/// After a key was struck, its voice is fresh, whatever sounded the key
/// before; the other keys sound as they did, and still no key has two
/// voices.
pub proof fn attach_replaces(s: Seq<Voice>, key: u8, velocity: u8, other: u8)
    requires
        well_formed(s),
    ensures
        well_formed(attached(s, key, velocity)),
        holds(attached(s, key, velocity), key),
        voice_of(attached(s, key, velocity), key) == Voice::fresh(key, velocity),
        attached(s, key, velocity).len() == if holds(s, key) {
            s.len()
        } else {
            s.len() + 1
        },
        other != key ==> holds(attached(s, key, velocity), other) == holds(s, other),
        other != key && holds(s, other) ==> voice_of(attached(s, key, velocity), other)
            == voice_of(s, other),
{
    let a = attached(s, key, velocity);
    assert(distinct_keys(a)) by {
        assert forall|i: int, j: int| 0 <= i < j < a.len() implies (#[trigger] a[i]).key != (
        #[trigger] a[j]).key by {
            if holds(s, key) {
                assert(a[i].key == s[i].key && a[j].key == s[j].key);
            } else if j < s.len() {
                assert(a[i] == s[i] && a[j] == s[j]);
            } else {
                assert(a[i] == s[i]);
            }
        }
    }
    if holds(s, key) {
        let i = choose|i: int| 0 <= i < s.len() && (#[trigger] s[i]).key == key;
        assert(a[i] == Voice::fresh(key, velocity));
        voice_is_unique(a, key, i);
    } else {
        assert(a[s.len() as int] == Voice::fresh(key, velocity));
        voice_is_unique(a, key, s.len() as int);
    }
    if other != key {
        if holds(s, other) {
            let i = choose|i: int| 0 <= i < s.len() && (#[trigger] s[i]).key == other;
            assert(a[i] == s[i]);
            voice_is_unique(a, other, i);
        } else if holds(a, other) {
            let i = choose|i: int| 0 <= i < a.len() && (#[trigger] a[i]).key == other;
            if i < s.len() {
                assert(s[i].key == other);
            }
        }
    }
}

/// After a key was let go, its voice is releasing from where its clock
/// stood, or from where it already was; the same keys sound as before, and
/// the other voices are untouched.
pub proof fn release_marks(s: Seq<Voice>, key: u8, other: u8)
    requires
        well_formed(s),
    ensures
        well_formed(released(s, key)),
        released(s, key).len() == s.len(),
        holds(released(s, key), other) == holds(s, other),
        holds(s, key) ==> voice_of(released(s, key), key) == voice_of(s, key).released(),
        other != key && holds(s, other) ==> voice_of(released(s, key), other) == voice_of(
            s,
            other,
        ),
{
    let r = released(s, key);
    released_is_well_formed(s, key);
    if holds(s, key) {
        let i = choose|i: int| 0 <= i < s.len() && (#[trigger] s[i]).key == key;
        assert(r[i] == s[i].released());
        voice_is_unique(r, key, i);
    }
    if holds(s, other) {
        let i = choose|i: int| 0 <= i < s.len() && (#[trigger] s[i]).key == other;
        assert(r[i].key == other);
        voice_is_unique(r, other, i);
    } else if holds(r, other) {
        let i = choose|i: int| 0 <= i < r.len() && (#[trigger] r[i]).key == other;
        assert(s[i].key == other);
    }
}

/// Letting a key go twice is letting it go once.
pub proof fn release_is_idempotent(s: Seq<Voice>, key: u8)
    ensures
        released(released(s, key), key) == released(s, key),
        applied(applied(s, MidiEvent::NoteOff { key }), MidiEvent::NoteOff { key }) == applied(
            s,
            MidiEvent::NoteOff { key },
        ),
{
    assert(released(released(s, key), key) =~= released(s, key));
}

/// A strike of velocity zero does what a note off does.
pub proof fn silent_strike_is_note_off(s: Seq<Voice>, key: u8)
    ensures
        applied(s, MidiEvent::NoteOn { key, velocity: 0 }) == applied(
            s,
            MidiEvent::NoteOff { key },
        ),
{
}

/// A voice that sounds later sounded before: silence is final.
pub proof fn sounding_is_downward_closed(v: Voice, n: nat, m: nat)
    requires
        v.wf(),
        n <= m,
        v.advanced_by(m).sounding(),
    ensures
        v.advanced_by(n).sounding(),
{
}

/// One sample later a key sounds exactly if it sounded and its release has
/// not run out by then, and its voice is the same voice, one sample on.
pub proof fn step_tracks_voice(s: Seq<Voice>, key: u8)
    requires
        well_formed(s),
    ensures
        well_formed(stepped(s)),
        holds(stepped(s), key) <==> holds(s, key) && voice_of(s, key).advanced().sounding(),
        holds(stepped(s), key) ==> voice_of(stepped(s), key) == voice_of(s, key).advanced(),
{
    let t = stepped(s);
    stepped_is_well_formed(s);
    if holds(t, key) {
        let j = choose|j: int| 0 <= j < t.len() && (#[trigger] t[j]).key == key;
        let i = stepped_origin(s, j);
        voice_is_unique(s, key, i);
        voice_is_unique(t, key, j);
    } else if holds(s, key) && voice_of(s, key).advanced().sounding() {
        let i = choose|i: int| 0 <= i < s.len() && (#[trigger] s[i]).key == key;
        let j = stepped_image(s, i);
        assert(t[j].key == key);
    }
}

/// `n` samples later a key sounds exactly if it sounded and its release has
/// not run out by then, and its voice is the same voice, `n` samples on.
pub proof fn steps_track_voice(s: Seq<Voice>, key: u8, n: nat)
    requires
        well_formed(s),
    ensures
        well_formed(steps(s, n)),
        holds(steps(s, n), key) <==> holds(s, key) && voice_of(s, key).advanced_by(n).sounding(),
        holds(steps(s, n), key) ==> voice_of(steps(s, n), key) == voice_of(s, key).advanced_by(n),
    decreases n,
{
    if n == 0 {
        if holds(s, key) {
            let i = choose|i: int| 0 <= i < s.len() && (#[trigger] s[i]).key == key;
            assert(s[i].advanced_by(0) == s[i]);
        }
    } else {
        let before = steps(s, (n - 1) as nat);
        steps_track_voice(s, key, (n - 1) as nat);
        step_tracks_voice(before, key);
        if holds(s, key) {
            let i = choose|i: int| 0 <= i < s.len() && (#[trigger] s[i]).key == key;
            let v = s[i];
            assert(v.advanced_by((n - 1) as nat).advanced() == v.advanced_by(n));
            if v.advanced_by(n).sounding() {
                sounding_is_downward_closed(v, (n - 1) as nat, n);
            }
        }
    }
}

/// The envelope of a voice that was struck `t` samples ago and is held.
pub open spec fn ramp(key: u8, velocity: u8, t: nat) -> Option<Envelope> {
    Voice::fresh(key, velocity).advanced_by(t).envelope()
}

/// The attack ramp of a voice that is held: its envelope starts at zero,
/// stands at `t / ATTACK_SAMPLES` after `t` samples of the attack, rises
/// with every sample of it, and is at full level from then on.
pub proof fn attack_ramp_rises(key: u8, velocity: u8, t: nat)
    ensures
        ramp(key, velocity, t) is Some,
        t == 0 ==> ramp(key, velocity, t)->0.level_of().is_zero(),
        t < ATTACK_SAMPLES ==> ramp(key, velocity, t) == Some(
            Envelope::Attack { elapsed: t as u64 },
        ),
        t < ATTACK_SAMPLES ==> ramp(key, velocity, t)->0.level_of().lt(
            ramp(key, velocity, t + 1)->0.level_of(),
        ),
        t >= ATTACK_SAMPLES ==> ramp(key, velocity, t) == Some(Envelope::Sustain),
        t >= ATTACK_SAMPLES ==> ramp(key, velocity, t)->0.level_of().is_one(),
{
    if t < ATTACK_SAMPLES {
        let now = ramp(key, velocity, t)->0.level_of();
        let next = ramp(key, velocity, t + 1)->0.level_of();
        assert(now.num == t && now.den == 480);
        if t + 1 < ATTACK_SAMPLES {
            assert(next.num == t + 1 && next.den == 480);
        } else {
            assert(next.num == 1 && next.den == 1);
        }
        assert(now.num * next.den < next.num * now.den) by (nonlinear_arith)
            requires
                now.den == 480,
                (next.num == now.num + 1 && next.den == 480) || (next.num == 1 && next.den == 1
                    && now.num < 480),
        ;
    }
}

/// After a strike, as long as no other event comes, the key goes on
/// sounding, and after `n` samples its voice is the fresh voice `n` samples
/// on: its share of the sample rises along the attack ramp.
pub proof fn attached_voice_rises(s: Seq<Voice>, key: u8, velocity: u8, n: nat)
    requires
        well_formed(s),
    ensures
        holds(steps(attached(s, key, velocity), n), key),
        voice_of(steps(attached(s, key, velocity), n), key) == Voice::fresh(
            key,
            velocity,
        ).advanced_by(n),
        n < ATTACK_SAMPLES ==> contributions(steps(attached(s, key, velocity), n)).contains(
            Contribution {
                key,
                velocity,
                time: n as u64,
                envelope: Envelope::Attack { elapsed: n as u64 },
            },
        ),
{
    let later = steps(attached(s, key, velocity), n);
    attach_replaces(s, key, velocity, key);
    steps_track_voice(attached(s, key, velocity), key, n);
    let i = choose|i: int| 0 <= i < later.len() && (#[trigger] later[i]).key == key;
    assert(contributions(later)[i] == later[i].contribution());
}

/// The release ramp of a voice: its envelope is at full level at the first
/// sample of the release and falls with every sample after it.
pub proof fn release_ramp_falls(v: Voice)
    requires
        v.wf(),
        v.released_at is Some,
        v.advanced().sounding(),
    ensures
        v.sounding(),
        v.elapsed == v.released_at->0 ==> v.envelope()->0.level_of().is_one(),
        v.advanced().envelope()->0.level_of().lt(v.envelope()->0.level_of()),
{
    let now = v.envelope()->0.level_of();
    let next = v.advanced().envelope()->0.level_of();
    let length = release_samples(v.velocity);
    assert(now.den == length && next.den == length && next.num + 1 == now.num);
    assert(next.num * now.den < now.num * next.den) by (nonlinear_arith)
        requires
            now.den == next.den,
            now.den > 0,
            next.num + 1 == now.num,
    ;
}

/// A releasing voice sounds for exactly the samples that remain of its
/// release, which are never more than the release is long, and is gone for
/// good after that.
pub proof fn releasing_voice_falls_silent(s: Seq<Voice>, key: u8, n: nat)
    requires
        well_formed(s),
        holds(s, key),
        voice_of(s, key).released_at is Some,
    ensures
        holds(steps(s, n), key) <==> n < voice_of(s, key).remaining(),
        0 < voice_of(s, key).remaining() <= release_samples(voice_of(s, key).velocity),
{
    steps_track_voice(s, key, n);
    let i = choose|i: int| 0 <= i < s.len() && (#[trigger] s[i]).key == key;
    assert(s[i].wf() && s[i].sounding());
}

/// Once a key was let go, its voice is gone within as many samples as its
/// release is long, and stays gone as long as the key is not struck again.
/// A key that did not sound stays silent.
pub proof fn released_key_falls_silent(s: Seq<Voice>, key: u8, n: nat)
    requires
        well_formed(s),
        holds(s, key) ==> n >= release_samples(voice_of(s, key).velocity),
    ensures
        !holds(steps(released(s, key), n), key),
{
    release_marks(s, key, key);
    steps_track_voice(released(s, key), key, n);
    if holds(s, key) {
        let i = choose|i: int| 0 <= i < s.len() && (#[trigger] s[i]).key == key;
        assert(s[i].wf() && s[i].sounding());
        release_samples_bounds(s[i].velocity);
    }
}

/// Every voice has a key and a velocity that a MIDI note on can carry: both
/// fit in seven bits, and the velocity is not zero.
pub open spec fn in_midi_range(s: Seq<Voice>) -> bool {
    forall|i: int|
        0 <= i < s.len() ==> (#[trigger] s[i]).key <= 127 && 1 <= s[i].velocity <= 127
}

/// Voices that MIDI messages brought stay in MIDI range, whatever message
/// comes next.
pub proof fn messages_keep_midi_range(s: Seq<Voice>, message: Seq<u8>)
    requires
        in_midi_range(s),
    ensures
        in_midi_range(applied(s, decoded(message))),
{
    let after = applied(s, decoded(message));
    assert forall|i: int| 0 <= i < after.len() implies (#[trigger] after[i]).key <= 127 && 1
        <= after[i].velocity <= 127 by {
        if i < s.len() {
            assert(s[i].key <= 127 && 1 <= s[i].velocity <= 127);
        }
    }
}

/// Voices in MIDI range stay there as samples pass.
pub proof fn steps_keep_midi_range(s: Seq<Voice>, n: nat)
    requires
        in_midi_range(s),
    ensures
        in_midi_range(steps(s, n)),
    decreases n,
{
    if n > 0 {
        let before = steps(s, (n - 1) as nat);
        steps_keep_midi_range(s, (n - 1) as nat);
        let after = stepped(before);
        assert forall|j: int| 0 <= j < after.len() implies (#[trigger] after[j]).key <= 127 && 1
            <= after[j].velocity <= 127 by {
            let i = stepped_origin(before, j);
            assert(before[i].key <= 127 && 1 <= before[i].velocity <= 127);
        }
    }
}

/// A strike in MIDI range has a gain above zero and at most one, and a
/// release of at least 37 and at most `RELEASE_SAMPLES` samples.
pub proof fn midi_range_bounds(velocity: u8)
    requires
        1 <= velocity <= 127,
    ensures
        0 < gain(velocity).num <= gain(velocity).den,
        37 <= release_samples(velocity) <= RELEASE_SAMPLES,
{
    release_samples_bounds(velocity);
    let v: int = velocity as int;
    assert(37 <= 4800int / v) by (nonlinear_arith)
        requires
            1 <= v <= 127,
    ;
}

} // verus!
