//! The MIDI messages the engine tells apart.

use vstd::prelude::*;

verus! {

/// The controller number of the sustain pedal.
pub const SUSTAIN_PEDAL: u8 = 64;

/// The least controller value at which the sustain pedal counts as pushed.
pub const PEDAL_PUSHED: u8 = 64;

/// A MIDI message. Data bytes are seven-bit values; the engine answers on
/// every channel, and the velocity of a note-off is not used.
#[derive(Clone, Copy, Debug, PartialEq, Eq)]
pub enum MidiMessage {
    /// Channel, key, velocity.
    NoteOn(u8, u8, u8),
    /// Channel, key, velocity.
    NoteOff(u8, u8, u8),
    /// Channel, controller number, controller value.
    ControlChange(u8, u8, u8),
    /// Any other message. Regions ignore it.
    Other,
}

} // verus!
