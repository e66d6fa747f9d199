//! Filling an output buffer: one sample for each frame, the same in every
//! channel of the frame.

use vstd::prelude::*;
use crate::model::{contributions, has_headroom, headroom_shrinks, steps};
use crate::registry::VoiceRegistry;
use crate::voice::{Contribution, Voice};

verus! {

/// Attenuation of the mix: a sample is the sum of the voices' shares
/// divided by this, so that several voices together do not clip.
pub const MIX_DIVISOR: u64 = 10;

/// The number of frames in a buffer of `len` slots, `channels` slots to the
/// frame; a last frame that the buffer cuts short counts.
pub open spec fn frames_in(len: nat, channels: nat) -> nat {
    if channels == 0 {
        0
    } else if len % channels == 0 {
        len / channels
    } else {
        len / channels + 1
    }
}

/// Computes the number of frames in a buffer.
pub fn frame_count(len: usize, channels: usize) -> (frames: usize)
    requires
        channels > 0,
    ensures
        frames == frames_in(len as nat, channels as nat),
{
    if len % channels == 0 {
        len / channels
    } else {
        assert(len / channels < len) by (nonlinear_arith)
            requires
                channels > 0,
                len % channels != 0,
        ;
        len / channels + 1
    }
}

/// The frame that the slot `j` of a buffer belongs to.
pub open spec fn frame_of(j: int, channels: usize) -> nat {
    (j / (channels as int)) as nat
}

/// `value` can stand in a slot of the frame `frame`: it is what `sample_of`
/// makes of the voices' contributions to that frame, the voices being `s`
/// before the first frame.
pub open spec fn rendered<T, F: Fn(&[Contribution]) -> T>(
    sample_of: F,
    s: Seq<Voice>,
    frame: nat,
    value: T,
) -> bool {
    exists|mix: &[Contribution]|
        mix@ == contributions(steps(s, frame)) && call_ensures(sample_of, (mix,), value)
}

/// A slot between the start of a frame and the start of the next belongs
/// to that frame.
proof fn slot_is_in_frame(j: int, channels: usize, frame: nat)
    requires
        channels > 0,
        frame * channels <= j < frame * channels + channels,
    ensures
        frame_of(j, channels) == frame,
{
    vstd::arithmetic::div_mod::lemma_fundamental_div_mod_converse(
        j,
        channels as int,
        frame as int,
        j - frame * channels,
    );
}

/// A frame that starts inside the buffer is one of its frames, and the last
/// of them if the next would start at the end of the buffer or beyond.
proof fn frame_is_counted(len: nat, channels: usize, frame: nat)
    requires
        channels > 0,
        frame * channels < len,
    ensures
        frame < frames_in(len, channels as nat),
        len <= frame * channels + channels ==> frames_in(len, channels as nat) == frame + 1,
{
    let c = channels as int;
    let q = len as int / c;
    let r = len as int % c;
    vstd::arithmetic::div_mod::lemma_fundamental_div_mod(len as int, c);
    vstd::arithmetic::div_mod::lemma_mod_bound(len as int, c);
    assert(frame <= q) by (nonlinear_arith)
        requires
            frame * c < c * q + r,
            0 <= r < c,
    ;
    if r == 0 {
        assert(frame < q) by (nonlinear_arith)
            requires
                frame * c < c * q,
                c > 0,
        ;
    }
    if len <= frame * channels + channels {
        assert(q <= frame + 1 && (r != 0 ==> q <= frame)) by (nonlinear_arith)
            requires
                c * q + r <= frame * c + c,
                0 <= r < c,
        ;
    }
}

impl VoiceRegistry {
    /// Fills an output buffer of interleaved channels. For each frame in
    /// turn the registry produces one sample: `sample_of` turns the voices'
    /// contributions into the value, and the value goes to every channel of
    /// the frame.
    pub fn render<T: Copy, F: Fn(&[Contribution]) -> T>(
        &mut self,
        output: &mut [T],
        channels: usize,
        sample_of: F,
    )
        requires
            old(self).wf(),
            channels > 0,
            has_headroom(old(self)@, frames_in(old(output)@.len(), channels as nat)),
            forall|mix: &[Contribution]| call_requires(sample_of, (mix,)),
        ensures
            final(self).wf(),
            final(self)@ == steps(old(self)@, frames_in(old(output)@.len(), channels as nat)),
            final(output)@.len() == old(output)@.len(),
            forall|j: int|
                0 <= j < final(output)@.len() ==> rendered(
                    sample_of,
                    old(self)@,
                    frame_of(j, channels),
                    #[trigger] final(output)@[j],
                ),
            forall|j: int, k: int|
                0 <= j < final(output)@.len() && 0 <= k < final(output)@.len() && frame_of(
                    j,
                    channels,
                ) == frame_of(k, channels) ==> #[trigger] final(output)@[j]
                    == #[trigger] final(output)@[k],
    {
        let len: usize = output.len();
        let mut mix: Vec<Contribution> = self.take_scratch();
        let mut start: usize = 0;
        let mut frame: usize = 0;
        while start < len
            invariant
                channels > 0,
                len == output@.len(),
                len == old(output)@.len(),
                start <= len,
                start < len ==> start == frame * channels,
                start == len ==> frame == frames_in(len as nat, channels as nat),
                frame <= start,
                self.wf(),
                self@ == steps(old(self)@, frame as nat),
                has_headroom(old(self)@, frames_in(len as nat, channels as nat)),
                forall|mix: &[Contribution]| call_requires(sample_of, (mix,)),
                forall|j: int| 0 <= j < start ==> #[trigger] frame_of(j, channels) < frame,
                forall|j: int|
                    0 <= j < start ==> rendered(
                        sample_of,
                        old(self)@,
                        frame_of(j, channels),
                        #[trigger] output@[j],
                    ),
                forall|j: int, k: int|
                    0 <= j < start && 0 <= k < start && frame_of(j, channels) == frame_of(
                        k,
                        channels,
                    ) ==> #[trigger] output@[j] == #[trigger] output@[k],
            decreases len - start,
        {
            proof {
                frame_is_counted(len as nat, channels, frame as nat);
                headroom_shrinks(
                    old(self)@,
                    frames_in(len as nat, channels as nat),
                    frame as nat,
                );
            }
            self.advance_and_mix_into(&mut mix);
            let value: T = sample_of(mix.as_slice());
            assert(rendered(sample_of, old(self)@, frame as nat, value));
            let end: usize = if len - start < channels {
                len
            } else {
                start + channels
            };
            let ghost before = output@;
            let mut j: usize = start;
            while j < end
                invariant
                    start <= j <= end <= len,
                    len == output@.len(),
                    len == before.len(),
                    forall|k: int| 0 <= k < start ==> #[trigger] output@[k] == before[k],
                    forall|k: int| start <= k < j ==> #[trigger] output@[k] == value,
                decreases end - j,
            {
                output[j] = value;
                j = j + 1;
            }
            proof {
                assert forall|k: int| start <= k < end implies frame_of(k, channels)
                    == frame by {
                    slot_is_in_frame(k, channels, frame as nat);
                }
                assert forall|k: int| 0 <= k < end implies rendered(
                    sample_of,
                    old(self)@,
                    frame_of(k, channels),
                    #[trigger] output@[k],
                ) by {
                    if k < start {
                        assert(output@[k] == before[k]);
                    } else {
                        assert(output@[k] == value);
                    }
                }
                if end < len {
                    assert(end == (frame + 1) * channels) by (nonlinear_arith)
                        requires
                            end == start + channels,
                            start == frame * channels,
                    ;
                }
            }
            start = end;
            frame = frame + 1;
        }
        self.put_scratch(mix);
    }
}

} // verus!
