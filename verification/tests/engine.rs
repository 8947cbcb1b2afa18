use openwurli_dsp::engine::{VoiceState, WurliEngine, MAX_VOICES};

/// Stolen-voice fade at 44.1 kHz: 5 ms.
const FADE: u32 = 220;

fn engine() -> WurliEngine {
    WurliEngine::new()
}

#[test]
fn test_engine_instantiates() {
    let e = engine();
    assert_eq!(e.slot_count(), MAX_VOICES);
}

#[test]
fn test_note_on_allocates_voice() {
    let mut e = engine();
    e.note_on(60, FADE);
    assert_eq!(e.held_voice_count(), 1);
}

#[test]
fn test_note_off_releases_voice() {
    let mut e = engine();
    e.note_on(60, FADE);
    e.note_off(60);
    assert_eq!(e.held_voice_count(), 0);
}

#[test]
fn test_polyphony_up_to_max_voices() {
    let mut e = engine();
    for n in 0..MAX_VOICES {
        e.note_on((36 + n) as u8, FADE);
    }
    assert_eq!(e.held_voice_count(), MAX_VOICES);
}

#[test]
fn test_voice_stealing_when_full() {
    let mut e = engine();
    for n in 0..MAX_VOICES {
        e.note_on((36 + n) as u8, FADE);
    }
    e.note_on(96, FADE);
    assert_eq!(e.held_voice_count(), MAX_VOICES);
    assert!(e.has_steal_voice_for(96));
}

#[test]
fn test_reset_clears_voices() {
    let mut e = engine();
    e.note_on(60, FADE);
    e.note_on(72, FADE);
    e.reset();
    assert_eq!(e.active_voice_count(), 0);
}

#[test]
fn test_sustain_defers_note_off() {
    let mut e = engine();
    e.set_sustain(true);
    e.note_on(60, FADE);
    e.note_off(60);
    assert_eq!(e.sustained_voice_count(), 1);
    assert_eq!(e.held_voice_count(), 0);
    e.set_sustain(false);
    // Releasing now (note_off triggered on pedal release)
    assert_eq!(e.sustained_voice_count(), 0);
}

#[test]
fn test_note_clamps_to_valid_range() {
    let mut e = engine();
    e.note_on(0, FADE); // below MIDI_LO
    e.note_on(127, FADE); // above MIDI_HI
    assert_eq!(e.held_voice_count(), 2, "both notes clamped, both allocated");
}

#[test]
fn test_sustain_pedal_release_triggers_damping() {
    let mut e = engine();
    e.set_sustain(true);
    e.note_on(60, FADE);
    e.note_off(60);
    assert_eq!(e.sustained_voice_count(), 1);
    e.set_sustain(false);
    assert_eq!(e.sustained_voice_count(), 0);
    assert_eq!(e.count_voices_in_state(VoiceState::Releasing), 1);
}

#[test]
fn test_no_sustain_normal_note_off() {
    let mut e = engine();
    e.note_on(60, FADE);
    e.note_off(60);
    assert_eq!(e.held_voice_count(), 0);
    assert_eq!(e.count_voices_in_state(VoiceState::Releasing), 1);
}

#[test]
fn test_voice_stealing_prefers_sustained_over_held() {
    let mut e = engine();
    e.set_sustain(true);
    for n in 0..(MAX_VOICES / 2) {
        e.note_on((36 + n) as u8, FADE);
        e.note_off((36 + n) as u8); // → Sustained
    }
    for n in (MAX_VOICES / 2)..MAX_VOICES {
        e.note_on((36 + n) as u8, FADE); // → Held
    }
    let sustained_before = e.sustained_voice_count();
    let held_before = e.held_voice_count();
    assert_eq!(sustained_before + held_before, MAX_VOICES);

    e.note_on(127, FADE); // forces a steal
    assert_eq!(e.held_voice_count(), held_before + 1);
    assert_eq!(e.sustained_voice_count(), sustained_before - 1);
}

#[test]
fn test_reattack_releases_sustained_same_note() {
    let mut e = engine();
    e.set_sustain(true);
    e.note_on(60, FADE);
    e.note_off(60); // → Sustained
    e.note_on(60, FADE); // re-attack same note
    assert_eq!(
        e.count_voices_with_note_in_state(60, VoiceState::Sustained),
        0,
        "old sustained voice should be released on re-attack"
    );
    assert_eq!(
        e.count_voices_with_note_in_state(60, VoiceState::Held),
        1,
        "new voice should be Held"
    );
}

#[test]
fn test_pedal_up_only_releases_sustained_not_held() {
    let mut e = engine();
    e.set_sustain(true);
    e.note_on(60, FADE);
    e.note_off(60); // → Sustained
    e.note_on(64, FADE); // → Held (key still down)
    assert_eq!(e.sustained_voice_count(), 1);
    assert_eq!(e.held_voice_count(), 1);
    e.set_sustain(false);
    assert_eq!(e.sustained_voice_count(), 0);
    assert_eq!(e.held_voice_count(), 1, "held voice must survive pedal up");
}

#[test]
fn test_reset_clears_sustain_state() {
    let mut e = engine();
    e.set_sustain(true);
    e.note_on(60, FADE);
    e.note_off(60);
    e.reset();
    assert!(!e.is_sustain_held(), "sustain flag must clear on reset");
    assert_eq!(e.active_voice_count(), 0);
}

#[test]
fn test_note_off_for_nonexistent_note_is_noop() {
    let mut e = engine();
    e.note_on(60, FADE);
    e.note_off(72); // never on
    assert_eq!(e.held_voice_count(), 1, "wrong-note off should not damage state");
}

// ── Further cases of the voice manager ──────────────────────────────────

#[test]
fn note_on_reports_slot_seed_and_clamped_note() {
    let mut e = engine();
    let a = e.note_on(60, FADE);
    assert_eq!(a.slot, 0);
    assert_eq!(a.note, 60);
    assert!(!a.stolen);
    assert!(a.damped.is_empty());
    // 60 * 2654435761 + 1 (mod 2^32)
    assert_eq!(a.noise_seed, 352_355_709);
    let b = e.note_on(5, FADE);
    assert_eq!(b.slot, 1);
    assert_eq!(b.note, 33);
    // 33 * 2654435761 + 2 (mod 2^32)
    assert_eq!(b.noise_seed, 1_697_034_195);
    let c = e.note_on(200, FADE);
    assert_eq!(c.note, 96);
}

#[test]
fn note_on_carries_mlp_flag() {
    let mut e = engine();
    assert!(!e.note_on(60, FADE).mlp_enabled);
    e.set_mlp_enabled(true);
    assert!(e.note_on(61, FADE).mlp_enabled);
}

#[test]
fn reattack_lists_damped_slot() {
    let mut e = engine();
    e.set_sustain(true);
    e.note_on(60, FADE);
    e.note_off(60);
    let a = e.note_on(60, FADE);
    assert_eq!(a.damped, vec![0]);
    assert_eq!(a.slot, 1);
    assert_eq!(e.slot(0).state, VoiceState::Releasing);
}

#[test]
fn stealing_takes_oldest_releasing_voice_first() {
    let mut e = engine();
    for n in 0..MAX_VOICES {
        e.note_on((33 + n) as u8, FADE);
    }
    // Release two keys: slot 5 first, then slot 3; slot 3 is the older voice.
    e.note_off(33 + 5);
    e.note_off(33 + 3);
    let a = e.note_on(60, FADE);
    assert!(a.stolen);
    assert_eq!(a.slot, 3);
    let s = e.slot(3);
    assert!(s.has_steal_voice);
    assert_eq!(s.steal_fade, FADE);
    assert_eq!(s.steal_fade_len, FADE);
}

#[test]
fn stealing_takes_oldest_held_voice_when_all_held() {
    let mut e = engine();
    for n in 0..MAX_VOICES {
        e.note_on((33 + n) as u8, FADE);
    }
    let a = e.note_on(90, FADE);
    assert!(a.stolen);
    assert_eq!(a.slot, 0);
    let b = e.note_on(91, FADE);
    assert_eq!(b.slot, 1);
}

#[test]
fn note_off_returns_oldest_held_slot() {
    let mut e = engine();
    e.note_on(60, FADE);
    e.note_on(60, FADE);
    assert_eq!(e.note_off(60), Some(0));
    assert_eq!(e.note_off(60), Some(1));
    assert_eq!(e.note_off(60), None);
}

#[test]
fn note_off_under_pedal_marks_sustained() {
    let mut e = engine();
    e.set_sustain(true);
    e.note_on(60, FADE);
    assert_eq!(e.note_off(60), Some(0));
    assert_eq!(e.slot(0).state, VoiceState::Sustained);
    assert_eq!(e.set_sustain(false), vec![0]);
    assert_eq!(e.slot(0).state, VoiceState::Releasing);
    // Pedal up again with nothing sustained damps nothing.
    assert!(e.set_sustain(false).is_empty());
}

#[test]
fn cleanup_frees_silent_voices_only() {
    let mut e = engine();
    e.note_on(60, FADE);
    e.note_on(61, FADE);
    e.note_off(60);
    let mut silent = vec![false; MAX_VOICES];
    silent[0] = true;
    silent[5] = true; // free slot: nothing to do
    assert_eq!(e.cleanup_voices(&silent), vec![0]);
    assert_eq!(e.slot(0).state, VoiceState::Free);
    assert!(!e.slot(0).has_voice);
    assert_eq!(e.active_voice_count(), 1);
}

#[test]
fn steal_fade_counts_down_and_ends() {
    let mut e = engine();
    for n in 0..MAX_VOICES {
        e.note_on((33 + n) as u8, FADE);
    }
    let a = e.note_on(90, 300);
    let k = a.slot;
    assert!(e.slot_is_rendered(k));
    assert_eq!(e.steal_fade_remaining(k, 0), 300);
    assert_eq!(e.steal_fade_remaining(k, 100), 200);
    assert_eq!(e.steal_fade_remaining(k, 400), 0);
    assert!(!e.advance_steal_fade(k, 256));
    assert_eq!(e.slot(k).steal_fade, 44);
    assert!(e.advance_steal_fade(k, 256));
    assert!(!e.slot(k).has_steal_voice);
    assert!(!e.has_steal_voice_for(90));
    assert!(!e.advance_steal_fade(k, 256));
}

#[test]
fn faulted_voices_are_dropped() {
    let mut e = engine();
    for n in 0..MAX_VOICES {
        e.note_on((33 + n) as u8, FADE);
    }
    let k = e.note_on(90, FADE).slot;
    e.note_nan_guard_fired();
    e.free_faulted_voice(k);
    e.drop_faulted_steal_voice(k);
    assert_eq!(e.nan_guard_fires(), 1);
    assert_eq!(e.slot(k).state, VoiceState::Free);
    assert!(!e.slot(k).has_steal_voice);
    assert_eq!(e.slot(k).steal_fade, 0);
    assert!(!e.slot_is_rendered(k));
    e.reset_nan_guard_count();
    assert_eq!(e.nan_guard_fires(), 0);
}

#[test]
fn force_sustain_skips_damping() {
    let mut e = engine();
    e.set_sustain(true);
    e.note_on(60, FADE);
    e.note_off(60);
    e.force_sustain_held(false);
    assert!(!e.is_sustain_held());
    assert_eq!(e.sustained_voice_count(), 1);
}

#[test]
fn state_counts_add_up() {
    let mut e = engine();
    e.set_sustain(true);
    e.note_on(40, FADE);
    e.note_on(41, FADE);
    e.note_off(41);
    e.set_sustain(false);
    e.note_on(42, FADE);
    e.note_off(42);
    let free = e.count_voices_in_state(VoiceState::Free);
    assert_eq!(free, MAX_VOICES - 3);
    assert_eq!(e.active_voice_count() + free, MAX_VOICES);
    assert_eq!(
        e.held_voice_count() + e.sustained_voice_count() + e.count_voices_in_state(VoiceState::Releasing),
        e.active_voice_count()
    );
}
