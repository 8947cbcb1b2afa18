//! The slot table of the voice manager as a mathematical sequence: its
//! well-formedness, the choice of the slot a note takes, the slot-wise
//! transitions, and counting.

use vstd::prelude::*;
use crate::engine::{VoiceSlot, VoiceState, AGE_LIMIT, MAX_VOICES};
use crate::tables::{MIDI_HI, MIDI_LO};

verus! {

/// The slot of a fresh engine, and of every slot before its first note.
pub open spec fn spec_empty_slot() -> VoiceSlot {
    VoiceSlot {
        state: VoiceState::Free,
        midi_note: 0,
        age: 0,
        has_voice: false,
        has_steal_voice: false,
        steal_fade: 0,
        steal_fade_len: 0,
    }
}

/// A slot that is not `Free` holds a sounding note: it has a voice, a note
/// on the keyboard and an age given out by the counter; a stolen voice's
/// fade never runs past its length.
pub open spec fn slot_ok(s: VoiceSlot, age_counter: u64) -> bool {
    &&& (s.state != VoiceState::Free) == s.has_voice
    &&& s.state != VoiceState::Free ==> {
        &&& MIDI_LO <= s.midi_note <= MIDI_HI
        &&& 1 <= s.age <= age_counter
    }
    &&& s.steal_fade <= s.steal_fade_len
}

/// Well-formedness of the slot table: `MAX_VOICES` slots, each well formed,
/// and no two sounding slots share an age.
pub open spec fn slots_ok(slots: Seq<VoiceSlot>, age_counter: u64) -> bool {
    &&& slots.len() == MAX_VOICES
    &&& forall|i: int| 0 <= i < slots.len() ==> #[trigger] slot_ok(slots[i], age_counter)
    &&& forall|i: int, j: int|
        0 <= i < slots.len() && 0 <= j < slots.len() && i != j
            && slots[i].state != VoiceState::Free && slots[j].state != VoiceState::Free
            ==> #[trigger] slots[i].age != #[trigger] slots[j].age
}

/// Stealing priority of a slot: lower is stolen first. Releasing voices go
/// first, then sustained ones, then held ones, oldest first within each.
pub open spec fn priority(s: VoiceSlot) -> int {
    match s.state {
        VoiceState::Free => 0,
        VoiceState::Releasing => s.age as int,
        VoiceState::Sustained => s.age + u64::MAX / 4,
        VoiceState::Held => s.age + u64::MAX / 2,
    }
}

pub open spec fn has_free(slots: Seq<VoiceSlot>) -> bool {
    exists|i: int| 0 <= i < slots.len() && #[trigger] slots[i].state == VoiceState::Free
}

/// `k` is the slot that a new note takes: the first free slot if there is
/// one, else the first slot of least stealing priority.
pub open spec fn chosen_slot(slots: Seq<VoiceSlot>, k: int) -> bool {
    &&& 0 <= k < slots.len()
    &&& if has_free(slots) {
        &&& slots[k].state == VoiceState::Free
        &&& forall|j: int| 0 <= j < k ==> #[trigger] slots[j].state != VoiceState::Free
    } else {
        &&& forall|j: int| 0 <= j < slots.len() ==> priority(slots[k]) <= #[trigger] priority(slots[j])
        &&& forall|j: int| 0 <= j < k ==> priority(slots[k]) < #[trigger] priority(slots[j])
    }
}

/// Counts the slots that satisfy `p`.
pub open spec fn count_slots(s: Seq<VoiceSlot>, p: spec_fn(VoiceSlot) -> bool) -> nat
    decreases s.len(),
{
    if s.len() == 0 {
        0
    } else {
        count_slots(s.drop_last(), p) + if p(s.last()) { 1nat } else { 0nat }
    }
}

pub open spec fn in_state(st: VoiceState) -> spec_fn(VoiceSlot) -> bool {
    |s: VoiceSlot| s.state == st
}

pub open spec fn is_active() -> spec_fn(VoiceSlot) -> bool {
    |s: VoiceSlot| s.state != VoiceState::Free
}

pub open spec fn note_in_state(note: u8, st: VoiceState) -> spec_fn(VoiceSlot) -> bool {
    |s: VoiceSlot| s.state == st && s.midi_note == note
}

/// `v` lists, in increasing order, exactly the indices of the slots that
/// satisfy `p`.
pub open spec fn lists_where(v: Seq<usize>, slots: Seq<VoiceSlot>, p: spec_fn(VoiceSlot) -> bool) -> bool {
    &&& forall|a: int, b: int| 0 <= a < b < v.len() ==> v[a] < v[b]
    &&& forall|a: int| 0 <= a < v.len() ==> v[a] < slots.len() && p(slots[v[a] as int])
    &&& forall|i: int| 0 <= i < slots.len() && p(slots[i]) ==> v.contains(i as usize)
}

/// A sustained voice of `note` starts releasing; other slots stay as they are.
pub open spec fn damp_sustained_slot(s: VoiceSlot, note: u8) -> VoiceSlot {
    if s.state == VoiceState::Sustained && s.midi_note == note {
        VoiceSlot { state: VoiceState::Releasing, ..s }
    } else {
        s
    }
}

pub open spec fn damp_sustained(slots: Seq<VoiceSlot>, note: u8) -> Seq<VoiceSlot> {
    slots.map_values(|s: VoiceSlot| damp_sustained_slot(s, note))
}

/// Slot `old` after a new note is struck in it with age `age`: it is held
/// and plays `note`; if it was sounding, its voice becomes the stolen voice
/// that fades out over `fade` samples.
pub open spec fn struck_slot(old: VoiceSlot, note: u8, age: u64, fade: u32) -> VoiceSlot {
    let stolen = old.state != VoiceState::Free;
    VoiceSlot {
        state: VoiceState::Held,
        midi_note: note,
        age: age,
        has_voice: true,
        has_steal_voice: if stolen { old.has_voice } else { old.has_steal_voice },
        steal_fade: if stolen { fade } else { old.steal_fade },
        steal_fade_len: if stolen { fade } else { old.steal_fade_len },
    }
}

/// `v` lists, in increasing order, exactly the indices `i < n` with `p(i)`.
pub open spec fn lists_indices(v: Seq<usize>, n: int, p: spec_fn(int) -> bool) -> bool {
    &&& forall|a: int, b: int| 0 <= a < b < v.len() ==> v[a] < v[b]
    &&& forall|a: int| 0 <= a < v.len() ==> v[a] < n && p(#[trigger] v[a] as int)
    &&& forall|i: int| 0 <= i < n && #[trigger] p(i) ==> v.contains(i as usize)
}

pub open spec fn has_held(slots: Seq<VoiceSlot>, note: u8) -> bool {
    exists|i: int| 0 <= i < slots.len() && #[trigger] note_in_state(note, VoiceState::Held)(slots[i])
}

/// `k` is the oldest held slot of `note` (the first such if ages tie).
pub open spec fn oldest_held(slots: Seq<VoiceSlot>, note: u8, k: int) -> bool {
    &&& 0 <= k < slots.len()
    &&& note_in_state(note, VoiceState::Held)(slots[k])
    &&& forall|j: int| 0 <= j < slots.len() && #[trigger] note_in_state(note, VoiceState::Held)(slots[j])
        ==> slots[k].age <= slots[j].age
    &&& forall|j: int| 0 <= j < k && #[trigger] note_in_state(note, VoiceState::Held)(slots[j])
        ==> slots[k].age < slots[j].age
}

/// A sustained voice starts releasing; other slots stay as they are.
pub open spec fn release_sustained_slot(s: VoiceSlot) -> VoiceSlot {
    if s.state == VoiceState::Sustained {
        VoiceSlot { state: VoiceState::Releasing, ..s }
    } else {
        s
    }
}

/// A slot after a reset: free, without voice or stolen voice.
pub open spec fn reset_slot(s: VoiceSlot) -> VoiceSlot {
    VoiceSlot { state: VoiceState::Free, has_voice: false, has_steal_voice: false, steal_fade: 0, ..s }
}

/// A slot whose voice was dropped: free, its stolen voice untouched.
pub open spec fn freed_slot(s: VoiceSlot) -> VoiceSlot {
    VoiceSlot { state: VoiceState::Free, has_voice: false, ..s }
}

/// Whether the cleanup pass frees slot `s`, given whether its voice has
/// decayed to silence.
pub open spec fn frees(s: VoiceSlot, silent: bool) -> bool {
    s.state != VoiceState::Free && s.has_voice && silent
}

/// The stolen-voice fade of a slot after a block of `len` samples.
pub open spec fn faded_slot(s: VoiceSlot, len: u32) -> VoiceSlot {
    if s.has_steal_voice {
        let left = if s.steal_fade >= len { (s.steal_fade - len) as u32 } else { 0u32 };
        VoiceSlot { steal_fade: left, has_steal_voice: left != 0, ..s }
    } else {
        s
    }
}

/// Counting after one slot changes.
pub proof fn lemma_count_update(s: Seq<VoiceSlot>, k: int, x: VoiceSlot, p: spec_fn(VoiceSlot) -> bool)
    requires
        0 <= k < s.len(),
    ensures
        count_slots(s.update(k, x), p) + (if p(s[k]) { 1int } else { 0int })
            == count_slots(s, p) + (if p(x) { 1int } else { 0int }),
    decreases s.len(),
{
    if k == s.len() - 1 {
        assert(s.update(k, x).drop_last() =~= s.drop_last());
    } else {
        lemma_count_update(s.drop_last(), k, x, p);
        assert(s.update(k, x).drop_last() =~= s.drop_last().update(k, x));
    }
}

/// Counting is unchanged by a slot-wise map that keeps `p` of every slot.
pub proof fn lemma_count_map(s: Seq<VoiceSlot>, f: spec_fn(VoiceSlot) -> VoiceSlot, p: spec_fn(VoiceSlot) -> bool)
    requires
        forall|i: int| 0 <= i < s.len() ==> p(#[trigger] f(s[i])) == p(s[i]),
    ensures
        count_slots(s.map_values(f), p) == count_slots(s, p),
    decreases s.len(),
{
    if s.len() > 0 {
        assert(s.map_values(f).drop_last() =~= s.drop_last().map_values(f));
        assert forall|i: int| 0 <= i < s.drop_last().len() implies p(#[trigger] f(s.drop_last()[i])) == p(s.drop_last()[i]) by {
            assert(s.drop_last()[i] == s[i]);
        }
        lemma_count_map(s.drop_last(), f, p);
        assert(f(s.last()) == s.map_values(f).last());
    }
}

/// Counting when no slot satisfies `p`.
pub proof fn lemma_count_none(s: Seq<VoiceSlot>, p: spec_fn(VoiceSlot) -> bool)
    requires
        forall|i: int| 0 <= i < s.len() ==> !p(#[trigger] s[i]),
    ensures
        count_slots(s, p) == 0,
    decreases s.len(),
{
    if s.len() > 0 {
        assert forall|i: int| 0 <= i < s.drop_last().len() implies !p(#[trigger] s.drop_last()[i]) by {
            assert(s.drop_last()[i] == s[i]);
        }
        lemma_count_none(s.drop_last(), p);
    }
}

/// Damping sustained voices keeps the slot table well formed.
pub(crate) proof fn lemma_damp_ok(slots: Seq<VoiceSlot>, ac: u64, note: u8)
    requires
        slots_ok(slots, ac),
    ensures
        slots_ok(damp_sustained(slots, note), ac),
{
    let d = damp_sustained(slots, note);
    assert forall|i: int| 0 <= i < d.len() implies #[trigger] slot_ok(d[i], ac) by {
        assert(slot_ok(slots[i], ac));
    }
    assert forall|i: int, j: int|
        0 <= i < d.len() && 0 <= j < d.len() && i != j
            && d[i].state != VoiceState::Free && d[j].state != VoiceState::Free
        implies #[trigger] d[i].age != #[trigger] d[j].age by {
        assert(slots[i].age != slots[j].age);
    }
}

/// Striking a note in a slot with the next age keeps the table well formed.
pub(crate) proof fn lemma_strike_ok(d: Seq<VoiceSlot>, ac: u64, k: int, note: u8, fade: u32)
    requires
        slots_ok(d, ac),
        0 <= k < d.len(),
        MIDI_LO <= note <= MIDI_HI,
        ac < AGE_LIMIT,
    ensures
        slots_ok(d.update(k, struck_slot(d[k], note, (ac + 1) as u64, fade)), (ac + 1) as u64),
{
    let n = d.update(k, struck_slot(d[k], note, (ac + 1) as u64, fade));
    let ac1 = (ac + 1) as u64;
    assert forall|i: int| 0 <= i < n.len() implies #[trigger] slot_ok(n[i], ac1) by {
        assert(slot_ok(d[i], ac));
    }
    assert forall|i: int, j: int|
        0 <= i < n.len() && 0 <= j < n.len() && i != j
            && n[i].state != VoiceState::Free && n[j].state != VoiceState::Free
        implies #[trigger] n[i].age != #[trigger] n[j].age by {
        assert(slot_ok(d[i], ac));
        assert(slot_ok(d[j], ac));
        if i != k && j != k {
            assert(d[i].age != d[j].age);
        }
    }
}

/// Counting when every slot satisfies `p`: all of them are counted.
pub proof fn lemma_count_all(s: Seq<VoiceSlot>, p: spec_fn(VoiceSlot) -> bool)
    requires
        forall|i: int| 0 <= i < s.len() ==> p(#[trigger] s[i]),
    ensures
        count_slots(s, p) == s.len(),
    decreases s.len(),
{
    if s.len() > 0 {
        assert forall|i: int| 0 <= i < s.drop_last().len() implies p(#[trigger] s.drop_last()[i]) by {
            assert(s.drop_last()[i] == s[i]);
        }
        lemma_count_all(s.drop_last(), p);
    }
}

/// Changing one field of one slot that touches neither its state nor its
/// age keeps the table well formed.
pub(crate) proof fn lemma_same_shape_ok(s: Seq<VoiceSlot>, ac: u64, k: int, x: VoiceSlot)
    requires
        slots_ok(s, ac),
        0 <= k < s.len(),
        slot_ok(x, ac),
        x.state != VoiceState::Free ==> s[k].state != VoiceState::Free,
        x.age == s[k].age,
    ensures
        slots_ok(s.update(k, x), ac),
{
    let n = s.update(k, x);
    assert forall|i: int| 0 <= i < n.len() implies #[trigger] slot_ok(n[i], ac) by {
        assert(slot_ok(s[i], ac));
    }
    assert forall|i: int, j: int|
        0 <= i < n.len() && 0 <= j < n.len() && i != j
            && n[i].state != VoiceState::Free && n[j].state != VoiceState::Free
        implies #[trigger] n[i].age != #[trigger] n[j].age by {
        assert(s[i].age != s[j].age);
    }
}

} // verus!
