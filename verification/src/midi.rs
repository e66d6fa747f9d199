//! From the bytes of a MIDI message to what happens to the voices.

use vstd::prelude::*;
use crate::model::{attached, released};
use crate::registry::VoiceRegistry;
use crate::voice::Voice;

verus! {

/// What a MIDI message asks of the engine.
#[derive(Clone, Copy, Debug, PartialEq, Eq, Structural)]
pub enum MidiEvent {
    /// A key was struck. A strike of velocity zero stands for letting go.
    NoteOn { key: u8, velocity: u8 },
    /// A key was let go.
    NoteOff { key: u8 },
    /// Anything else, and anything that is no message at all.
    Other,
}

/// The event that a message encodes. A note message is a status byte whose
/// high nibble is `0x9` (note on) or `0x8` (note off) and whose low nibble
/// is the channel, then the key and the velocity, each below `0x80`. Bytes
/// that follow are not looked at.
pub open spec fn decoded(bytes: Seq<u8>) -> MidiEvent {
    if bytes.len() >= 3 && bytes[1] < 0x80 && bytes[2] < 0x80 {
        if bytes[0] & 0xF0 == 0x90 {
            MidiEvent::NoteOn { key: bytes[1], velocity: bytes[2] }
        } else if bytes[0] & 0xF0 == 0x80 {
            MidiEvent::NoteOff { key: bytes[1] }
        } else {
            MidiEvent::Other
        }
    } else {
        MidiEvent::Other
    }
}

/// The voices after an event: a strike of a velocity above zero attaches a
/// voice; a strike of velocity zero and a note off both let the key go;
/// anything else leaves the voices alone.
pub open spec fn applied(s: Seq<Voice>, event: MidiEvent) -> Seq<Voice> {
    match event {
        MidiEvent::NoteOn { key, velocity } => if velocity > 0 {
            attached(s, key, velocity)
        } else {
            released(s, key)
        },
        MidiEvent::NoteOff { key } => released(s, key),
        MidiEvent::Other => s,
    }
}

/// Hands the message to `wmidi::MidiMessage::from_bytes` and keeps of its
/// answer what the engine acts on: of a note on, the key and the velocity;
/// of a note off, the key; `Other` for every other message and for every
/// error. Not proved: that `from_bytes` answers with a note on or a note off
/// exactly for the messages that `decoded` describes, and with the key and
/// the velocity that `decoded` reads. On a message that starts with a data
/// byte `from_bytes` panics, so such a message must not come here.
#[verifier::external_body]
#[allow(deprecated)]
fn decode(bytes: &[u8]) -> (event: MidiEvent)
    requires
        bytes@.len() > 0 ==> bytes@[0] >= 0x80,
    ensures
        event == decoded(bytes@),
{
    match wmidi::MidiMessage::from_bytes(bytes) {
        Ok(wmidi::MidiMessage::NoteOn(_, key, velocity)) => MidiEvent::NoteOn { key, velocity },
        Ok(wmidi::MidiMessage::NoteOff(_, key, _)) => MidiEvent::NoteOff { key },
        _ => MidiEvent::Other,
    }
}

/// A message that starts with a data byte encodes no note.
pub proof fn data_byte_starts_no_note(first: u8)
    by (bit_vector)
    requires
        first < 0x80,
    ensures
        first & 0xF0 != 0x90,
        first & 0xF0 != 0x80,
{
}

/// Reads a MIDI message. What is no note on and no note off, malformed or
/// not, reads as `Other`.
pub fn parse(message: &[u8]) -> (event: MidiEvent)
    ensures
        event == decoded(message@),
{
    if message.len() > 0 && message[0] < 0x80 {
        proof {
            data_byte_starts_no_note(message@[0]);
        }
        MidiEvent::Other
    } else {
        decode(message)
    }
}

impl VoiceRegistry {
    /// Acts on an event.
    pub fn apply(&mut self, event: MidiEvent)
        requires
            old(self).wf(),
        ensures
            final(self)@ == applied(old(self)@, event),
            final(self).wf(),
    {
        match event {
            MidiEvent::NoteOn { key, velocity } => {
                if velocity != 0 {
                    self.attach(key, velocity);
                } else {
                    self.begin_release(key);
                }
            },
            MidiEvent::NoteOff { key } => {
                self.begin_release(key);
            },
            MidiEvent::Other => {},
        }
    }

    /// Acts on a MIDI message as it came off the wire. Only note on and note
    /// off change anything; every other message is ignored.
    pub fn dispatch(&mut self, message: &[u8])
        requires
            old(self).wf(),
        ensures
            final(self)@ == applied(old(self)@, decoded(message@)),
            final(self).wf(),
    {
        let event = parse(message);
        self.apply(event);
    }
}

} // verus!
