use openwurli_dsp::blocks::chunk_ranges;
use openwurli_dsp::engine::noise_seed;
use openwurli_dsp::noise::NoiseBurst;
use openwurli_dsp::noise::lcg_next;
use openwurli_dsp::settle::{compute_settled_state, POWER_AMP_SETTLE_SAMPLES, PREAMP_SETTLE_SAMPLES};
use openwurli_dsp::tables::{clamp_note, MIDI_HI, MIDI_LO};
use openwurli_dsp::variation::{freq_detune_hash, hash_bits, mode_amplitude_hashes};

#[test]
fn hash_known_values() {
    assert_eq!(hash_bits(60, 0xDEAD), 13_472_454);
    assert_eq!(freq_detune_hash(60), 13_472_454);
    assert_eq!(freq_detune_hash(61), 1_098_781);
    assert_eq!(
        mode_amplitude_hashes(60),
        vec![8_721_465, 14_309_708, 11_109_227, 8_677_542, 8_480_509, 5_613_664, 124_543]
    );
}

/// Detune factor of a note: `1 + (2 * hash / 2^24 - 1) * 0.008`.
fn detune(midi: u8) -> f64 {
    1.0 + (freq_detune_hash(midi) as f64 / 16_777_216.0 * 2.0 - 1.0) * 0.008
}

/// Amplitude factors of a note: `1 + (2 * hash / 2^24 - 1) * 0.08` per mode.
fn amplitude_offsets(midi: u8) -> Vec<f64> {
    mode_amplitude_hashes(midi)
        .iter()
        .map(|h| 1.0 + (*h as f64 / 16_777_216.0 * 2.0 - 1.0) * 0.08)
        .collect()
}

#[test]
fn variation_test_deterministic() {
    assert_eq!(detune(60), detune(60));
    assert_eq!(amplitude_offsets(60), amplitude_offsets(60));
    assert_eq!(mode_amplitude_hashes(60), mode_amplitude_hashes(60));
}

#[test]
fn variation_test_different_notes_differ() {
    assert_ne!(detune(60), detune(61));
}

#[test]
fn test_detune_range() {
    for midi in 33..=96u8 {
        let d = detune(midi);
        assert!(d > 0.99 && d < 1.01, "detune out of range for MIDI {midi}: {d}");
    }
}

#[test]
fn test_amplitude_range() {
    for midi in 33..=96u8 {
        let offsets = amplitude_offsets(midi);
        assert_eq!(offsets.len(), 7);
        for (i, &o) in offsets.iter().enumerate() {
            assert!(
                o > 0.90 && o < 1.10,
                "amplitude offset out of range for MIDI {midi} mode {i}: {o}"
            );
        }
    }
}

#[test]
fn lcg_known_values() {
    assert_eq!(lcg_next(0), 1_013_904_223);
    assert_eq!(lcg_next(0x1234_5678), 1_967_335_287);
}

#[test]
fn clamp_note_keeps_keyboard() {
    assert_eq!(clamp_note(0), MIDI_LO);
    assert_eq!(clamp_note(127), MIDI_HI);
    assert_eq!(clamp_note(60), 60);
    assert_eq!(clamp_note(33), 33);
    assert_eq!(clamp_note(96), 96);
}

#[test]
fn settle_runs_the_step_the_given_number_of_times() {
    let s = compute_settled_state(0u64, 1000, |x: u64| x + 3);
    assert_eq!(s, 3000);
    let t = compute_settled_state(7u64, 0, |x: u64| x + 1);
    assert_eq!(t, 7);
    assert_eq!(compute_settled_state(0u64, PREAMP_SETTLE_SAMPLES, |x: u64| x + 1), 176_400);
    assert_eq!(compute_settled_state(0u64, POWER_AMP_SETTLE_SAMPLES, |x: u64| x + 1), 44_100);
}

#[test]
fn test_attack_noise_is_done() {
    // 15 ms burst at 44.1 kHz, rendered into a 1000-sample buffer.
    let mut noise = NoiseBurst::new((0.015f64 * 44100.0) as u32);
    let rendered = noise.take(1000);
    assert_eq!(rendered, 661);
    assert!(noise.is_done());
}

#[test]
fn noise_burst_counts_down() {
    // 15 ms at 44.1 kHz
    let mut b = NoiseBurst::new(661);
    assert!(!b.is_done());
    assert_eq!(b.take(256), 256);
    assert_eq!(b.take(256), 256);
    assert_eq!(b.take(256), 149);
    assert!(b.is_done());
    assert_eq!(b.take(256), 0);
    let mut z = NoiseBurst::new(0);
    assert!(z.is_done());
    assert_eq!(z.take(10), 0);
}

#[test]
fn chunk_ranges_cover_total() {
    assert_eq!(chunk_ranges(2500, 1024), vec![(0, 1024), (1024, 2048), (2048, 2500)]);
    assert_eq!(chunk_ranges(1024, 1024), vec![(0, 1024)]);
    assert!(chunk_ranges(0, 512).is_empty());
    // warm-up: 0.6 s at 44.1 kHz in 512-sample blocks
    let r = chunk_ranges(26_460, 512);
    assert_eq!(r.len(), 52);
    assert_eq!(r[51], (26_112, 26_460));
}

#[test]
fn noise_seed_values() {
    assert_eq!(noise_seed(60, 0), (60u32).wrapping_mul(2654435761));
    assert_eq!(noise_seed(60, 1), 352_355_709);
    assert_eq!(noise_seed(96, 1 << 32), (96u32).wrapping_mul(2654435761));
}

#[test]
fn every_key_detunes_differently() {
    let mut hashes: Vec<u32> = (33..=96u8).map(freq_detune_hash).collect();
    hashes.sort();
    hashes.dedup();
    assert_eq!(hashes.len(), 64);
}
