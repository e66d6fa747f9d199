use keyboard::midi::{parse, MidiEvent};
use keyboard::registry::VoiceRegistry;
use keyboard::voice::NoteInfo;

#[test]
fn note_on_is_read_with_key_and_velocity() {
    assert_eq!(parse(&[0x90, 60, 100]), MidiEvent::NoteOn { key: 60, velocity: 100 });
    assert_eq!(parse(&[0x90, 0, 0]), MidiEvent::NoteOn { key: 0, velocity: 0 });
    assert_eq!(parse(&[0x90, 127, 127]), MidiEvent::NoteOn { key: 127, velocity: 127 });
}

#[test]
fn note_off_is_read_with_key() {
    assert_eq!(parse(&[0x80, 60, 64]), MidiEvent::NoteOff { key: 60 });
    assert_eq!(parse(&[0x80, 127, 0]), MidiEvent::NoteOff { key: 127 });
}

#[test]
fn channel_is_ignored() {
    for channel in 0..16u8 {
        assert_eq!(
            parse(&[0x90 | channel, 69, 1]),
            MidiEvent::NoteOn { key: 69, velocity: 1 }
        );
        assert_eq!(parse(&[0x80 | channel, 69, 1]), MidiEvent::NoteOff { key: 69 });
    }
}

#[test]
fn bytes_after_the_message_are_ignored() {
    assert_eq!(parse(&[0x90, 60, 100, 0x90, 62]), MidiEvent::NoteOn { key: 60, velocity: 100 });
    assert_eq!(parse(&[0x80, 60, 100, 0xFF]), MidiEvent::NoteOff { key: 60 });
}

#[test]
fn other_messages_read_as_other() {
    assert_eq!(parse(&[0xA0, 60, 100]), MidiEvent::Other);
    assert_eq!(parse(&[0xB0, 7, 100]), MidiEvent::Other);
    assert_eq!(parse(&[0xC0, 5]), MidiEvent::Other);
    assert_eq!(parse(&[0xD0, 5]), MidiEvent::Other);
    assert_eq!(parse(&[0xE0, 0, 64]), MidiEvent::Other);
    assert_eq!(parse(&[0xF0, 1, 2, 3, 0xF7]), MidiEvent::Other);
    assert_eq!(parse(&[0xF8]), MidiEvent::Other);
    assert_eq!(parse(&[0xFE]), MidiEvent::Other);
}

#[test]
fn malformed_messages_read_as_other() {
    assert_eq!(parse(&[]), MidiEvent::Other);
    assert_eq!(parse(&[0x90]), MidiEvent::Other);
    assert_eq!(parse(&[0x90, 60]), MidiEvent::Other);
    assert_eq!(parse(&[0x80, 60]), MidiEvent::Other);
    assert_eq!(parse(&[0x90, 0x80, 100]), MidiEvent::Other);
    assert_eq!(parse(&[0x90, 60, 0x80]), MidiEvent::Other);
    assert_eq!(parse(&[0x80, 200, 0]), MidiEvent::Other);
    assert_eq!(parse(&[0xF0, 1, 2, 3]), MidiEvent::Other);
    assert_eq!(parse(&[0xF7]), MidiEvent::Other);
}

#[test]
fn message_that_starts_with_data_reads_as_other() {
    assert_eq!(parse(&[60, 100, 0]), MidiEvent::Other);
    assert_eq!(parse(&[0x00]), MidiEvent::Other);
    assert_eq!(parse(&[0x7F, 0x90, 60, 100]), MidiEvent::Other);
    for first in 0..0x80u8 {
        assert_eq!(parse(&[first, 60, 100]), MidiEvent::Other);
    }
}

#[test]
fn note_off_for_unattached_key_leaves_registry_empty() {
    let mut registry = VoiceRegistry::new();
    registry.dispatch(&[0x80, 60, 0]);
    assert_eq!(registry.len(), 0);
    assert_eq!(registry.get(60), None);
    let mix = registry.advance_and_mix();
    assert!(mix.is_empty());
    assert_eq!(registry.len(), 0);
}

#[test]
fn note_on_attaches_a_voice() {
    let mut registry = VoiceRegistry::new();
    registry.dispatch(&[0x93, 69, 100]);
    assert_eq!(registry.len(), 1);
    assert_eq!(registry.get(69), Some(NoteInfo::new(69, 100)));
}

#[test]
fn note_on_with_velocity_zero_releases_like_note_off() {
    let mut by_note_on = VoiceRegistry::new();
    let mut by_note_off = VoiceRegistry::new();
    for registry in [&mut by_note_on, &mut by_note_off] {
        registry.dispatch(&[0x90, 60, 100]);
        registry.advance_and_mix();
        registry.advance_and_mix();
    }
    by_note_on.dispatch(&[0x90, 60, 0]);
    by_note_off.dispatch(&[0x80, 60, 0]);
    assert_eq!(by_note_on.len(), 1);
    assert_eq!(by_note_on.get(60).unwrap().release(), Some(2));
    assert_eq!(by_note_on.get(60), by_note_off.get(60));
    assert_eq!(by_note_on.get(60).unwrap().velocity(), 100);
}

#[test]
fn note_on_with_velocity_zero_attaches_nothing() {
    let mut registry = VoiceRegistry::new();
    registry.dispatch(&[0x90, 60, 0]);
    assert_eq!(registry.len(), 0);
}

#[test]
fn other_messages_change_nothing() {
    let mut registry = VoiceRegistry::new();
    registry.dispatch(&[0x90, 60, 100]);
    registry.advance_and_mix();
    let before = registry.get(60);
    for message in [
        &[0xB0u8, 64, 127][..],
        &[0xE0, 0, 64][..],
        &[0xA0, 60, 10][..],
        &[0xF8][..],
        &[][..],
        &[60, 0, 0][..],
        &[0x80, 60][..],
        &[0x90, 0xFF, 0xFF][..],
    ] {
        registry.dispatch(message);
        assert_eq!(registry.len(), 1);
        assert_eq!(registry.get(60), before);
    }
}

#[test]
fn apply_acts_on_each_event() {
    let mut registry = VoiceRegistry::new();
    registry.apply(MidiEvent::Other);
    assert_eq!(registry.len(), 0);
    registry.apply(MidiEvent::NoteOn { key: 60, velocity: 1 });
    assert_eq!(registry.get(60), Some(NoteInfo::new(60, 1)));
    registry.apply(MidiEvent::NoteOff { key: 60 });
    assert_eq!(registry.get(60).unwrap().release(), Some(0));
    registry.apply(MidiEvent::NoteOn { key: 60, velocity: 0 });
    assert_eq!(registry.get(60).unwrap().release(), Some(0));
}
