//! Interpretation of a raw MIDI channel-voice message as a semantic event.
//!
//! Classification goes by the status byte's range, ignoring the channel
//! nibble: 0x80..=0x8F is a note-off, 0x90..=0x9F is a note-on, and anything
//! else is passed through unexamined. The pitch class is the second byte
//! reduced modulo 12. A message shorter than two bytes carries no note and is
//! classified as other traffic.

use vstd::prelude::*;

verus! {

/// A raw MIDI message, seen at pitch-class granularity.
#[derive(Clone, Copy, Debug, PartialEq, Eq, Structural)]
pub enum MidiEvent {
    /// A note started sounding; the payload is its pitch class.
    NoteOn(u8),
    /// A note stopped sounding; the payload is its pitch class.
    NoteOff(u8),
    /// Any other traffic; never changes the held set.
    Other,
}

/// What a raw message means: note-off for status bytes 0x80..=0x8F, note-on
/// for 0x90..=0x9F, other traffic for everything else and for messages
/// shorter than two bytes.
pub open spec fn spec_classify(m: Seq<u8>) -> MidiEvent {
    if m.len() < 2 {
        MidiEvent::Other
    } else if 0x80 <= m[0] && m[0] <= 0x8F {
        MidiEvent::NoteOff((m[1] % 12) as u8)
    } else if 0x90 <= m[0] && m[0] <= 0x9F {
        MidiEvent::NoteOn((m[1] % 12) as u8)
    } else {
        MidiEvent::Other
    }
}

/// Classifies one raw message; pure, with no side effects.
pub fn classify(message: &[u8]) -> (e: MidiEvent)
    ensures
        e == spec_classify(message@),
{
    if message.len() < 2 {
        MidiEvent::Other
    } else {
        let status = message[0];
        let pc = message[1] % 12;
        if 0x80 <= status && status <= 0x8F {
            MidiEvent::NoteOff(pc)
        } else if 0x90 <= status && status <= 0x9F {
            MidiEvent::NoteOn(pc)
        } else {
            MidiEvent::Other
        }
    }
}

} // verus!
