//! Deterministic per-note variation: hash-based pseudo-random offsets.
//!
//! Each physical reed of a real Wurlitzer has slightly different tuning,
//! solder mass and mounting. Every note gets fixed offsets drawn from a hash
//! of its MIDI number, so note 60 always sounds the same but differs slightly
//! from note 61. This module computes the 24-bit hash values; an offset is
//! `hash / 2^24` scaled into its range.

use vstd::prelude::*;
use vstd::wrapping::u32_specs::wrapping_mul;
use crate::tables::{MIDI_HI, MIDI_LO, NUM_MODES};

verus! {

/// Seed of the frequency-detuning hash.
pub const FREQ_DETUNE_SEED: u32 = 0xDEAD;

/// Seed of the hash of mode 0's amplitude offset; mode `i` uses this plus `i`.
pub const MODE_AMPLITUDE_SEED: u32 = 0xBEEF;

/// FNV-1a over the note and the seed, finished by an xor-shift and a
/// multiplicative mix, keeping the low 24 bits.
pub open spec fn spec_hash_bits(midi: u8, seed: u32) -> u32 {
    let h0: u32 = 2166136261u32 ^ (midi as u32);
    let h1: u32 = wrapping_mul(h0, 16777619u32);
    let h2: u32 = wrapping_mul(h1 ^ seed, 16777619u32);
    let h3: u32 = h2 ^ (h2 >> 16u32);
    let h4: u32 = wrapping_mul(h3, 2654435769u32);
    h4 & 0x00FF_FFFFu32
}

/// Deterministic 24-bit hash of a MIDI note and a seed.
pub fn hash_bits(midi: u8, seed: u32) -> (h: u32)
    ensures
        h == spec_hash_bits(midi, seed),
        h < 0x100_0000,
{
    let mut h: u32 = 2166136261;
    h ^= midi as u32;
    h = h.wrapping_mul(16777619);
    h ^= seed;
    h = h.wrapping_mul(16777619);
    h ^= h >> 16;
    h = h.wrapping_mul(2654435769);
    let r = h & 0x00FF_FFFF;
    assert(r < 0x100_0000) by (bit_vector)
        requires
            r == h & 0x00FF_FFFFu32,
    ;
    r
}

/// The hash behind a note's frequency detuning; the detune factor is
/// `1 + (2 * hash / 2^24 - 1) * 0.008`.
pub fn freq_detune_hash(midi: u8) -> (h: u32)
    ensures
        h == spec_hash_bits(midi, FREQ_DETUNE_SEED),
{
    hash_bits(midi, FREQ_DETUNE_SEED)
}

/// The hashes behind a note's per-mode amplitude offsets, mode by mode; the
/// offset of mode `i` is `1 + (2 * hash / 2^24 - 1) * 0.08`.
pub fn mode_amplitude_hashes(midi: u8) -> (hs: Vec<u32>)
    ensures
        hs@.len() == NUM_MODES,
        forall|i: int| 0 <= i < NUM_MODES ==> #[trigger] hs@[i] == spec_hash_bits(
            midi,
            (MODE_AMPLITUDE_SEED + i) as u32,
        ),
{
    let mut hs: Vec<u32> = Vec::new();
    let mut i: usize = 0;
    while i < NUM_MODES
        invariant
            i <= NUM_MODES,
            hs@.len() == i,
            forall|k: int| 0 <= k < i ==> #[trigger] hs@[k] == spec_hash_bits(midi, (MODE_AMPLITUDE_SEED + k) as u32),
        decreases NUM_MODES - i,
    {
        let seed: u32 = MODE_AMPLITUDE_SEED + i as u32;
        hs.push(hash_bits(midi, seed));
        i += 1;
    }
    hs
}

/// The key whose detune hash is `h` (0 for a value no key has).
pub open spec fn key_of_detune_hash(h: u32) -> u8 {
    if h == 13996180u32 {
        33
    } else if h == 14116843u32 {
        34
    } else if h == 11764844u32 {
        35
    } else if h == 1178463u32 {
        36
    } else if h == 11127567u32 {
        37
    } else if h == 11503658u32 {
        38
    } else if h == 1360657u32 {
        39
    } else if h == 12847019u32 {
        40
    } else if h == 9412004u32 {
        41
    } else if h == 7341411u32 {
        42
    } else if h == 4144136u32 {
        43
    } else if h == 7398792u32 {
        44
    } else if h == 13191334u32 {
        45
    } else if h == 12650710u32 {
        46
    } else if h == 8324361u32 {
        47
    } else if h == 14869283u32 {
        48
    } else if h == 1534208u32 {
        49
    } else if h == 6609620u32 {
        50
    } else if h == 3874137u32 {
        51
    } else if h == 5706066u32 {
        52
    } else if h == 7677964u32 {
        53
    } else if h == 8493185u32 {
        54
    } else if h == 10203560u32 {
        55
    } else if h == 8441979u32 {
        56
    } else if h == 9141044u32 {
        57
    } else if h == 1600349u32 {
        58
    } else if h == 9040821u32 {
        59
    } else if h == 13472454u32 {
        60
    } else if h == 1098781u32 {
        61
    } else if h == 16294682u32 {
        62
    } else if h == 2369352u32 {
        63
    } else if h == 16325304u32 {
        64
    } else if h == 15934027u32 {
        65
    } else if h == 13359387u32 {
        66
    } else if h == 16287019u32 {
        67
    } else if h == 2502629u32 {
        68
    } else if h == 7009374u32 {
        69
    } else if h == 12712929u32 {
        70
    } else if h == 7192342u32 {
        71
    } else if h == 853677u32 {
        72
    } else if h == 4033114u32 {
        73
    } else if h == 3521981u32 {
        74
    } else if h == 15333429u32 {
        75
    } else if h == 10578473u32 {
        76
    } else if h == 6951606u32 {
        77
    } else if h == 13352447u32 {
        78
    } else if h == 3479059u32 {
        79
    } else if h == 7071564u32 {
        80
    } else if h == 12224190u32 {
        81
    } else if h == 1520922u32 {
        82
    } else if h == 9079018u32 {
        83
    } else if h == 1826862u32 {
        84
    } else if h == 14621897u32 {
        85
    } else if h == 15487136u32 {
        86
    } else if h == 15787678u32 {
        87
    } else if h == 11018629u32 {
        88
    } else if h == 2451902u32 {
        89
    } else if h == 10824870u32 {
        90
    } else if h == 16012150u32 {
        91
    } else if h == 8628235u32 {
        92
    } else if h == 10364071u32 {
        93
    } else if h == 10376231u32 {
        94
    } else if h == 15808495u32 {
        95
    } else if h == 12598050u32 {
        96
    } else {
        0
    }
}

/// Every key's detune hash leads back to the key.
proof fn lemma_detune_hash_names_key(a: u8)
    requires
        MIDI_LO <= a <= MIDI_HI,
    ensures
        key_of_detune_hash(spec_hash_bits(a, FREQ_DETUNE_SEED)) == a,
{
    assert({
        &&& spec_hash_bits(33u8, 0xDEADu32) == 13996180u32
        &&& spec_hash_bits(34u8, 0xDEADu32) == 14116843u32
        &&& spec_hash_bits(35u8, 0xDEADu32) == 11764844u32
        &&& spec_hash_bits(36u8, 0xDEADu32) == 1178463u32
        &&& spec_hash_bits(37u8, 0xDEADu32) == 11127567u32
        &&& spec_hash_bits(38u8, 0xDEADu32) == 11503658u32
        &&& spec_hash_bits(39u8, 0xDEADu32) == 1360657u32
        &&& spec_hash_bits(40u8, 0xDEADu32) == 12847019u32
        &&& spec_hash_bits(41u8, 0xDEADu32) == 9412004u32
        &&& spec_hash_bits(42u8, 0xDEADu32) == 7341411u32
        &&& spec_hash_bits(43u8, 0xDEADu32) == 4144136u32
        &&& spec_hash_bits(44u8, 0xDEADu32) == 7398792u32
        &&& spec_hash_bits(45u8, 0xDEADu32) == 13191334u32
        &&& spec_hash_bits(46u8, 0xDEADu32) == 12650710u32
        &&& spec_hash_bits(47u8, 0xDEADu32) == 8324361u32
        &&& spec_hash_bits(48u8, 0xDEADu32) == 14869283u32
        &&& spec_hash_bits(49u8, 0xDEADu32) == 1534208u32
        &&& spec_hash_bits(50u8, 0xDEADu32) == 6609620u32
        &&& spec_hash_bits(51u8, 0xDEADu32) == 3874137u32
        &&& spec_hash_bits(52u8, 0xDEADu32) == 5706066u32
        &&& spec_hash_bits(53u8, 0xDEADu32) == 7677964u32
        &&& spec_hash_bits(54u8, 0xDEADu32) == 8493185u32
        &&& spec_hash_bits(55u8, 0xDEADu32) == 10203560u32
        &&& spec_hash_bits(56u8, 0xDEADu32) == 8441979u32
        &&& spec_hash_bits(57u8, 0xDEADu32) == 9141044u32
        &&& spec_hash_bits(58u8, 0xDEADu32) == 1600349u32
        &&& spec_hash_bits(59u8, 0xDEADu32) == 9040821u32
        &&& spec_hash_bits(60u8, 0xDEADu32) == 13472454u32
        &&& spec_hash_bits(61u8, 0xDEADu32) == 1098781u32
        &&& spec_hash_bits(62u8, 0xDEADu32) == 16294682u32
        &&& spec_hash_bits(63u8, 0xDEADu32) == 2369352u32
        &&& spec_hash_bits(64u8, 0xDEADu32) == 16325304u32
        &&& spec_hash_bits(65u8, 0xDEADu32) == 15934027u32
        &&& spec_hash_bits(66u8, 0xDEADu32) == 13359387u32
        &&& spec_hash_bits(67u8, 0xDEADu32) == 16287019u32
        &&& spec_hash_bits(68u8, 0xDEADu32) == 2502629u32
        &&& spec_hash_bits(69u8, 0xDEADu32) == 7009374u32
        &&& spec_hash_bits(70u8, 0xDEADu32) == 12712929u32
        &&& spec_hash_bits(71u8, 0xDEADu32) == 7192342u32
        &&& spec_hash_bits(72u8, 0xDEADu32) == 853677u32
        &&& spec_hash_bits(73u8, 0xDEADu32) == 4033114u32
        &&& spec_hash_bits(74u8, 0xDEADu32) == 3521981u32
        &&& spec_hash_bits(75u8, 0xDEADu32) == 15333429u32
        &&& spec_hash_bits(76u8, 0xDEADu32) == 10578473u32
        &&& spec_hash_bits(77u8, 0xDEADu32) == 6951606u32
        &&& spec_hash_bits(78u8, 0xDEADu32) == 13352447u32
        &&& spec_hash_bits(79u8, 0xDEADu32) == 3479059u32
        &&& spec_hash_bits(80u8, 0xDEADu32) == 7071564u32
        &&& spec_hash_bits(81u8, 0xDEADu32) == 12224190u32
        &&& spec_hash_bits(82u8, 0xDEADu32) == 1520922u32
        &&& spec_hash_bits(83u8, 0xDEADu32) == 9079018u32
        &&& spec_hash_bits(84u8, 0xDEADu32) == 1826862u32
        &&& spec_hash_bits(85u8, 0xDEADu32) == 14621897u32
        &&& spec_hash_bits(86u8, 0xDEADu32) == 15487136u32
        &&& spec_hash_bits(87u8, 0xDEADu32) == 15787678u32
        &&& spec_hash_bits(88u8, 0xDEADu32) == 11018629u32
        &&& spec_hash_bits(89u8, 0xDEADu32) == 2451902u32
        &&& spec_hash_bits(90u8, 0xDEADu32) == 10824870u32
        &&& spec_hash_bits(91u8, 0xDEADu32) == 16012150u32
        &&& spec_hash_bits(92u8, 0xDEADu32) == 8628235u32
        &&& spec_hash_bits(93u8, 0xDEADu32) == 10364071u32
        &&& spec_hash_bits(94u8, 0xDEADu32) == 10376231u32
        &&& spec_hash_bits(95u8, 0xDEADu32) == 15808495u32
        &&& spec_hash_bits(96u8, 0xDEADu32) == 12598050u32
    }) by (bit_vector);
    // One case per key; in each, the table above gives the hash.
    if a == 33 {
    } else if a == 34 {
    } else if a == 35 {
    } else if a == 36 {
    } else if a == 37 {
    } else if a == 38 {
    } else if a == 39 {
    } else if a == 40 {
    } else if a == 41 {
    } else if a == 42 {
    } else if a == 43 {
    } else if a == 44 {
    } else if a == 45 {
    } else if a == 46 {
    } else if a == 47 {
    } else if a == 48 {
    } else if a == 49 {
    } else if a == 50 {
    } else if a == 51 {
    } else if a == 52 {
    } else if a == 53 {
    } else if a == 54 {
    } else if a == 55 {
    } else if a == 56 {
    } else if a == 57 {
    } else if a == 58 {
    } else if a == 59 {
    } else if a == 60 {
    } else if a == 61 {
    } else if a == 62 {
    } else if a == 63 {
    } else if a == 64 {
    } else if a == 65 {
    } else if a == 66 {
    } else if a == 67 {
    } else if a == 68 {
    } else if a == 69 {
    } else if a == 70 {
    } else if a == 71 {
    } else if a == 72 {
    } else if a == 73 {
    } else if a == 74 {
    } else if a == 75 {
    } else if a == 76 {
    } else if a == 77 {
    } else if a == 78 {
    } else if a == 79 {
    } else if a == 80 {
    } else if a == 81 {
    } else if a == 82 {
    } else if a == 83 {
    } else if a == 84 {
    } else if a == 85 {
    } else if a == 86 {
    } else if a == 87 {
    } else if a == 88 {
    } else if a == 89 {
    } else if a == 90 {
    } else if a == 91 {
    } else if a == 92 {
    } else if a == 93 {
    } else if a == 94 {
    } else if a == 95 {
    } else if a == 96 {
    }
}

/// Every key of the keyboard is detuned by its own amount: no two keys
/// share a detune hash, so no two notes sound identical.
pub proof fn lemma_keys_detune_differently(a: u8, b: u8)
    requires
        MIDI_LO <= a <= MIDI_HI,
        MIDI_LO <= b <= MIDI_HI,
        a != b,
    ensures
        spec_hash_bits(a, FREQ_DETUNE_SEED) != spec_hash_bits(b, FREQ_DETUNE_SEED),
{
    lemma_detune_hash_names_key(a);
    lemma_detune_hash_names_key(b);
}

} // verus!
