//! Sample-clock schedule and damper choices of the modal reed oscillator.
//!
//! The oscillator advances a sample counter. Every `JITTER_SUBSAMPLE`
//! samples it draws new frequency jitter for its modes; every
//! `RENORM_INTERVAL` samples (but not at the first one) it corrects the
//! radius of its quadrature pairs. On key release the felt damper engages
//! over a register-dependent ramp, except on the top keys, which have no
//! damper.

use vstd::prelude::*;

verus! {

/// Jitter subsample interval, in samples.
pub const JITTER_SUBSAMPLE: u64 = 16;

/// Quadrature renormalization interval, in samples.
pub const RENORM_INTERVAL: u64 = 1024;

/// Lowest note without a damper (the top five keys ring out naturally).
pub const FIRST_UNDAMPED_NOTE: u8 = 92;

/// Whether sample number `sample` draws new jitter.
pub fn jitter_update_due(sample: u64) -> (due: bool)
    ensures
        due == (sample % JITTER_SUBSAMPLE == 0),
{
    let r = sample & (JITTER_SUBSAMPLE - 1);
    assert(sample & 15u64 == sample % 16u64) by (bit_vector);
    r == 0
}

/// Whether sample number `sample` renormalizes the quadrature pairs.
pub fn renorm_due(sample: u64) -> (due: bool)
    ensures
        due == (sample % RENORM_INTERVAL == 0 && sample > 0),
{
    let r = sample & (RENORM_INTERVAL - 1);
    assert(sample & 1023u64 == sample % 1024u64) by (bit_vector);
    r == 0 && sample > 0
}

/// Every renormalization falls on a jitter update.
pub proof fn lemma_renorm_on_jitter_update(sample: u64)
    requires
        sample % RENORM_INTERVAL == 0,
    ensures
        sample % JITTER_SUBSAMPLE == 0,
{
    assert(sample % 1024u64 == 0 ==> sample % 16u64 == 0) by (bit_vector);
}

/// Whether releasing the key of `midi_note` engages a damper.
pub fn has_damper(midi_note: u8) -> (d: bool)
    ensures
        d == (midi_note < FIRST_UNDAMPED_NOTE),
{
    midi_note < FIRST_UNDAMPED_NOTE
}

/// Time over which the damper felt comes into full contact, in
/// milliseconds: 50 ms in the bass (below C3), 25 ms in the middle (below
/// C5), 8 ms in the treble.
pub open spec fn spec_damper_ramp_ms(midi_note: u8) -> u32 {
    if midi_note < 48 {
        50
    } else if midi_note < 72 {
        25
    } else {
        8
    }
}

/// The damper ramp time of a note, in milliseconds.
pub fn damper_ramp_ms(midi_note: u8) -> (ms: u32)
    ensures
        ms == spec_damper_ramp_ms(midi_note),
        midi_note < 48 ==> ms == 50,
        48 <= midi_note < 72 ==> ms == 25,
        midi_note >= 72 ==> ms == 8,
{
    proof {
        lemma_damper_ramp_by_register(midi_note);
    }
    if midi_note < 48 {
        50
    } else if midi_note < 72 {
        25
    } else {
        8
    }
}

/// The damper ramp by register: 50 ms below C3 (MIDI 48), 25 ms from C3 up
/// to below C5 (MIDI 72), and 8 ms on every damped key from C5 up.
pub proof fn lemma_damper_ramp_by_register(midi_note: u8)
    ensures
        midi_note < 48 ==> spec_damper_ramp_ms(midi_note) == 50,
        48 <= midi_note < 72 ==> spec_damper_ramp_ms(midi_note) == 25,
        midi_note >= 72 ==> spec_damper_ramp_ms(midi_note) == 8,
{
}

/// Lower notes are damped over longer ramps.
pub proof fn lemma_damper_ramp_falls_with_pitch(a: u8, b: u8)
    requires
        a <= b,
    ensures
        spec_damper_ramp_ms(b) <= spec_damper_ramp_ms(a),
{
}

} // verus!
