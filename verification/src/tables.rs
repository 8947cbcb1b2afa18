//! Keyboard range and other fixed tables of the 200A.

use vstd::prelude::*;

verus! {

/// Number of modes in the modal reed model.
pub const NUM_MODES: usize = 7;

/// Lowest MIDI note of the 64-key 200A keyboard (A1).
pub const MIDI_LO: u8 = 33;

/// Highest MIDI note of the 64-key 200A keyboard (C7).
pub const MIDI_HI: u8 = 96;

/// The note that a MIDI note number plays: numbers outside the keyboard are
/// moved to the nearest end of it.
pub open spec fn spec_clamp_note(note: u8) -> u8 {
    if note < MIDI_LO {
        MIDI_LO
    } else if note > MIDI_HI {
        MIDI_HI
    } else {
        note
    }
}

/// Clamps a MIDI note number to the keyboard range `MIDI_LO..=MIDI_HI`.
pub fn clamp_note(note: u8) -> (r: u8)
    ensures
        r == spec_clamp_note(note),
        MIDI_LO <= r <= MIDI_HI,
{
    if note < MIDI_LO {
        MIDI_LO
    } else if note > MIDI_HI {
        MIDI_HI
    } else {
        note
    }
}

} // verus!
