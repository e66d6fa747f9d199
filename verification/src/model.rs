//! The voices as mathematics: a sequence of voices, and what striking a key,
//! letting it go and the passing of a sample make of it.

use vstd::prelude::*;
use crate::voice::{released_voice_sounds, Contribution, Voice};

verus! {

/// Some voice of `s` sounds the key.
pub open spec fn holds(s: Seq<Voice>, key: u8) -> bool {
    exists|i: int| 0 <= i < s.len() && (#[trigger] s[i]).key == key
}

/// The voice of `s` that sounds the key.
pub open spec fn voice_of(s: Seq<Voice>, key: u8) -> Voice
    recommends
        holds(s, key),
{
    s[choose|i: int| 0 <= i < s.len() && (#[trigger] s[i]).key == key]
}

/// No two voices of `s` sound the same key.
pub open spec fn distinct_keys(s: Seq<Voice>) -> bool {
    forall|i: int, j: int| 0 <= i < j < s.len() ==> (#[trigger] s[i]).key != (#[trigger] s[j]).key
}

/// What a registry holds at any time: at most one voice for each key, and
/// none that has fallen silent.
pub open spec fn well_formed(s: Seq<Voice>) -> bool {
    &&& distinct_keys(s)
    &&& forall|i: int| 0 <= i < s.len() ==> (#[trigger] s[i]).wf() && s[i].sounding()
}

/// The voices after a key was struck: a fresh voice takes the place of the
/// one that sounded the key, or joins at the end if there was none.
pub open spec fn attached(s: Seq<Voice>, key: u8, velocity: u8) -> Seq<Voice> {
    if holds(s, key) {
        s.map_values(
            |v: Voice|
                if v.key == key {
                    Voice::fresh(key, velocity)
                } else {
                    v
                },
        )
    } else {
        s.push(Voice::fresh(key, velocity))
    }
}

/// The voices after a key was let go: the voice that sounds the key starts
/// its release, unless it has done so before; all else stays.
pub open spec fn released(s: Seq<Voice>, key: u8) -> Seq<Voice> {
    s.map_values(
        |v: Voice|
            if v.key == key {
                v.released()
            } else {
                v
            },
    )
}

/// The voices one sample later: every clock has advanced by one, and the
/// voices whose release has run out by then are gone. The others keep
/// their order.
pub open spec fn stepped(s: Seq<Voice>) -> Seq<Voice> {
    s.map_values(|v: Voice| v.advanced()).filter(|v: Voice| v.sounding())
}

/// The voices `n` samples later.
pub open spec fn steps(s: Seq<Voice>, n: nat) -> Seq<Voice>
    decreases n,
{
    if n == 0 {
        s
    } else {
        stepped(steps(s, (n - 1) as nat))
    }
}

/// What the voices add to the current sample, voice by voice.
pub open spec fn contributions(s: Seq<Voice>) -> Seq<Contribution> {
    s.map_values(|v: Voice| v.contribution())
}

/// Every clock of `s` can count `n` more samples.
pub open spec fn has_headroom(s: Seq<Voice>, n: nat) -> bool {
    forall|i: int| 0 <= i < s.len() ==> (#[trigger] s[i]).elapsed + n <= u64::MAX
}

/// Stepping the voices one by one: a voice joins the stepped ones exactly
/// if it still sounds one sample later.
pub proof fn stepped_push(s: Seq<Voice>, v: Voice)
    ensures
        stepped(s.push(v)) == if v.advanced().sounding() {
            stepped(s).push(v.advanced())
        } else {
            stepped(s)
        },
{
    let advance = |v: Voice| v.advanced();
    let sounds = |v: Voice| v.sounding();
    assert(s.push(v).map_values(advance) =~= s.map_values(advance).push(v.advanced()));
    s.map_values(advance).lemma_filter_push(v.advanced(), sounds);
}

/// Where a voice of the stepped voices came from: it is a voice of `s`, one
/// sample later, and it still sounds.
pub proof fn stepped_origin(s: Seq<Voice>, j: int) -> (i: int)
    requires
        0 <= j < stepped(s).len(),
    ensures
        0 <= i < s.len(),
        stepped(s)[j] == s[i].advanced(),
        stepped(s)[j].sounding(),
    decreases s.len(),
{
    if s.len() == 0 {
        s.map_values(|v: Voice| v.advanced()).lemma_filter_len(|v: Voice| v.sounding());
        0
    } else {
        let init = s.drop_last();
        assert(s =~= init.push(s.last()));
        stepped_push(init, s.last());
        if j == stepped(init).len() {
            s.len() - 1
        } else {
            stepped_origin(init, j)
        }
    }
}

/// Where a voice of `s` that still sounds one sample later went: it is among
/// the stepped voices.
pub proof fn stepped_image(s: Seq<Voice>, i: int) -> (j: int)
    requires
        0 <= i < s.len(),
        s[i].advanced().sounding(),
    ensures
        0 <= j < stepped(s).len(),
        stepped(s)[j] == s[i].advanced(),
    decreases s.len(),
{
    let init = s.drop_last();
    assert(s =~= init.push(s.last()));
    stepped_push(init, s.last());
    if i == s.len() - 1 {
        stepped(init).len() as int
    } else {
        stepped_image(init, i)
    }
}

/// Stepping keeps the voices well formed.
pub proof fn stepped_is_well_formed(s: Seq<Voice>)
    requires
        well_formed(s),
    ensures
        well_formed(stepped(s)),
    decreases s.len(),
{
    let t = stepped(s);
    assert forall|j: int| 0 <= j < t.len() implies (#[trigger] t[j]).wf() && t[j].sounding() by {
        let i = stepped_origin(s, j);
    }
    if s.len() > 0 {
        let init = s.drop_last();
        assert(s =~= init.push(s.last()));
        stepped_push(init, s.last());
        stepped_is_well_formed(init);
        assert forall|j: int, k: int| 0 <= j < k < t.len() implies (#[trigger] t[j]).key != (
        #[trigger] t[k]).key by {
            if k == stepped(init).len() {
                let i = stepped_origin(init, j);
                assert(init[i].key == s[i].key);
            }
        }
    }
}

/// Letting a key go keeps the voices well formed.
pub proof fn released_is_well_formed(s: Seq<Voice>, key: u8)
    requires
        well_formed(s),
    ensures
        well_formed(released(s, key)),
{
    let r = released(s, key);
    assert forall|i: int| 0 <= i < r.len() implies (#[trigger] r[i]).wf() && r[i].sounding() by {
        released_voice_sounds(s[i]);
    }
    assert forall|i: int, j: int| 0 <= i < j < r.len() implies (#[trigger] r[i]).key != (
    #[trigger] r[j]).key by {
        assert(r[i].key == s[i].key && r[j].key == s[j].key);
    }
}

/// Clocks that can count `n` more samples can count the rest of them after
/// `k` of them.
pub proof fn headroom_shrinks(s: Seq<Voice>, n: nat, k: nat)
    requires
        has_headroom(s, n),
        k <= n,
    ensures
        has_headroom(steps(s, k), (n - k) as nat),
    decreases k,
{
    if k > 0 {
        let before = steps(s, (k - 1) as nat);
        headroom_shrinks(s, n, (k - 1) as nat);
        let after = stepped(before);
        assert forall|j: int| 0 <= j < after.len() implies (#[trigger] after[j]).elapsed + (n
            - k) <= u64::MAX by {
            let i = stepped_origin(before, j);
            assert(before[i].elapsed + (n - (k - 1)) <= u64::MAX);
        }
    }
}

} // verus!
