use vstd::prelude::*;

use crate::engine::MidiEvent;

verus! {

/// MIDI status byte for note-on, channel 1.
pub const NOTE_ON_STATUS: u8 = 0x90;

/// MIDI status byte for note-off, channel 1.
pub const NOTE_OFF_STATUS: u8 = 0x80;

/// Fixed velocity carried by every emitted note message.
pub const VELOCITY: u8 = 0x64;

/// The three bytes that carry a note event on the wire.
pub open spec fn event_bytes(event: MidiEvent) -> Seq<u8> {
    match event {
        MidiEvent::NoteOn(note) => seq![NOTE_ON_STATUS, note, VELOCITY],
        MidiEvent::NoteOff(note) => seq![NOTE_OFF_STATUS, note, VELOCITY],
    }
}

/// The note-on message for `note`: status, note, fixed velocity.
pub fn note_on_message(note: u8) -> (msg: Vec<u8>)
    ensures
        msg@ == seq![NOTE_ON_STATUS, note, VELOCITY],
{
    let mut msg: Vec<u8> = Vec::new();
    msg.push(NOTE_ON_STATUS);
    msg.push(note);
    msg.push(VELOCITY);
    proof {
        assert(msg@ =~= seq![NOTE_ON_STATUS, note, VELOCITY]);
    }
    msg
}

/// The note-off message for `note`: status, note, fixed velocity.
pub fn note_off_message(note: u8) -> (msg: Vec<u8>)
    ensures
        msg@ == seq![NOTE_OFF_STATUS, note, VELOCITY],
{
    let mut msg: Vec<u8> = Vec::new();
    msg.push(NOTE_OFF_STATUS);
    msg.push(note);
    msg.push(VELOCITY);
    proof {
        assert(msg@ =~= seq![NOTE_OFF_STATUS, note, VELOCITY]);
    }
    msg
}

/// The wire bytes for a decided note event.
pub fn event_message(event: &MidiEvent) -> (msg: Vec<u8>)
    ensures
        msg@ == event_bytes(*event),
{
    match event {
        MidiEvent::NoteOn(note) => note_on_message(*note),
        MidiEvent::NoteOff(note) => note_off_message(*note),
    }
}

} // verus!
