//! The per-event driver.
//!
//! One pipeline instance owns the held pitch classes for its whole life and
//! is invoked once per incoming MIDI message, from a single callback context,
//! so it never needs synchronization. Each invocation classifies the message,
//! updates the held set, and returns the OSC frame that reflects the new
//! state; the frame is produced for every event, note traffic or not, so
//! receivers see a steady heartbeat of the current state. Forwarding of the
//! raw bytes and the UDP send themselves are I/O and stay with the caller;
//! their failure can never reach, nor be reached by, the state update here.

use vstd::prelude::*;

use crate::classify::{classify, spec_classify, MidiEvent};
use crate::held::{swap_remove_first, HeldKeys};
use crate::osc::{encode_pc_frame, osc_pc_frame, EncodeError};

verus! {

/// The held set after one event: a note-on appends its pitch class, a
/// note-off removes one matching entry (a no-op when none matches), other
/// traffic changes nothing.
pub open spec fn apply_event(s: Seq<u8>, e: MidiEvent) -> Seq<u8> {
    match e {
        MidiEvent::NoteOn(pc) => s.push(pc),
        MidiEvent::NoteOff(pc) => swap_remove_first(s, pc),
        MidiEvent::Other => s,
    }
}

/// The held set after a whole sequence of events, applied in order.
pub open spec fn apply_events(s: Seq<u8>, events: Seq<MidiEvent>) -> Seq<u8>
    decreases events.len(),
{
    if events.len() == 0 {
        s
    } else {
        apply_events(apply_event(s, events[0]), events.drop_first())
    }
}

/// How many events of the sequence are note-ons.
pub open spec fn count_note_ons(events: Seq<MidiEvent>) -> nat
    decreases events.len(),
{
    if events.len() == 0 {
        0
    } else {
        (if events[0] is NoteOn {
            1nat
        } else {
            0nat
        }) + count_note_ons(events.drop_first())
    }
}

/// How many note-offs of the sequence found a matching entry in the held set
/// as it stood when they arrived.
pub open spec fn count_matched_note_offs(s: Seq<u8>, events: Seq<MidiEvent>) -> nat
    decreases events.len(),
{
    if events.len() == 0 {
        0
    } else {
        (if events[0] matches MidiEvent::NoteOff(pc) && s.contains(pc) {
            1nat
        } else {
            0nat
        }) + count_matched_note_offs(apply_event(s, events[0]), events.drop_first())
    }
}

/// Length accounting for the held set: over any event sequence, the final
/// length plus the note-offs that found a match equals the starting length
/// plus the note-ons. With an empty start, the length is exactly the count of
/// note-ons minus the count of matched note-offs, and an unmatched note-off
/// is a no-op, so the length can never go below zero.
pub proof fn lemma_held_length_accounting(s: Seq<u8>, events: Seq<MidiEvent>)
    ensures
        apply_events(s, events).len() + count_matched_note_offs(s, events) == s.len()
            + count_note_ons(events),
    decreases events.len(),
{
    if events.len() > 0 {
        let e = events[0];
        let s1 = apply_event(s, e);
        match e {
            MidiEvent::NoteOn(pc) => {
                assert(s1.len() == s.len() + 1);
            },
            MidiEvent::NoteOff(pc) => {
                if s.contains(pc) {
                    crate::held::lemma_first_index_in_range(s, pc);
                    assert(s1.len() == s.len() - 1);
                } else {
                    assert(s1 == s);
                }
            },
            MidiEvent::Other => {
                assert(s1 == s);
            },
        }
        lemma_held_length_accounting(s1, events.drop_first());
    }
}

/// From an empty start, the held set's length is exactly the count of
/// note-ons minus the count of note-offs that found a match; a note-off with
/// no matching entry is a no-op, so the length never drops below zero.
pub proof fn lemma_held_length_from_empty(events: Seq<MidiEvent>)
    ensures
        count_matched_note_offs(Seq::empty(), events) <= count_note_ons(events),
        apply_events(Seq::empty(), events).len() == count_note_ons(events)
            - count_matched_note_offs(Seq::empty(), events),
{
    lemma_held_length_accounting(Seq::empty(), events);
}

/// The per-event state machine: the held pitch classes plus the choice,
/// fixed at setup, whether raw events are also forwarded to an output sink.
pub struct Pipeline {
    held: HeldKeys,
    forward_enabled: bool,
}

impl View for Pipeline {
    type V = Seq<u8>;

    closed spec fn view(&self) -> Seq<u8> {
        self.held@
    }
}

impl Pipeline {
    /// Every held entry is a pitch class, a value in [0, 11].
    pub open spec fn wf(&self) -> bool {
        forall|i: int| 0 <= i < self@.len() ==> self@[i] < 12
    }

    /// Whether the caller should forward each raw event to its output sink.
    pub closed spec fn forwarding(&self) -> bool {
        self.forward_enabled
    }

    /// A fresh pipeline: nothing held yet.
    pub fn new(forward_enabled: bool) -> (p: Pipeline)
        ensures
            p@ =~= Seq::<u8>::empty(),
            p.wf(),
            p.forwarding() == forward_enabled,
    {
        Pipeline { held: HeldKeys::new(), forward_enabled }
    }

    /// Whether each raw event should also be forwarded; the caller performs
    /// the actual send and, on failure, logs and continues.
    pub fn should_forward(&self) -> (r: bool)
        ensures
            r == self.forwarding(),
    {
        self.forward_enabled
    }

    /// Handles one incoming MIDI message: classifies it, updates the held
    /// set accordingly, and returns the OSC frame for the new state.
    ///
    /// A frame is owed for every event, including non-note traffic, and it
    /// always reflects the state after this event; only a held set too large
    /// for the blob's length field is refused, and even then the state update
    /// has happened. The raw bytes are never inspected beyond the first two.
    pub fn process_event(&mut self, message: &[u8]) -> (r: Result<Vec<u8>, EncodeError>)
        requires
            old(self).wf(),
        ensures
            final(self).wf(),
            final(self).forwarding() == old(self).forwarding(),
            final(self)@ == apply_event(old(self)@, spec_classify(message@)),
            final(self)@.len() <= 0xFFFF_FFFF ==> (r matches Ok(frame) && frame@ == osc_pc_frame(
                final(self)@,
            )),
            final(self)@.len() > 0xFFFF_FFFF ==> r == Result::<Vec<u8>, EncodeError>::Err(
                EncodeError::SnapshotTooLarge,
            ),
    {
        proof {
            assert forall|i: int| 0 <= i < self.held@.len() implies self.held@[i] < 12 by {
                assert(old(self)@[i] < 12);
            }
            assert(self.held.wf());
        }
        let event = classify(message);
        match event {
            MidiEvent::NoteOn(pc) => {
                self.held.add_note(pc);
            },
            MidiEvent::NoteOff(pc) => {
                self.held.remove_note(pc);
            },
            MidiEvent::Other => {},
        }
        proof {
            assert forall|i: int| 0 <= i < self@.len() implies self@[i] < 12 by {
                assert(self.held@[i] < 12);
            }
        }
        let snap = self.held.snapshot();
        encode_pc_frame(&snap)
    }

    /// The current held pitch classes, as a fresh vector.
    pub fn snapshot(&self) -> (r: Vec<u8>)
        ensures
            r@ == self@,
    {
        self.held.snapshot()
    }

    /// The number of held entries.
    pub fn held_len(&self) -> (n: usize)
        ensures
            n == self@.len(),
    {
        self.held.len()
    }
}

} // verus!
