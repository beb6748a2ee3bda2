//! Tracks the pitch classes of currently-held MIDI notes and encodes the
//! current set as an OSC message for transmission over UDP.

pub mod classify;
pub mod held;
pub mod osc;
pub mod pipeline;
