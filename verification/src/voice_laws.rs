//! Laws of the voice manager: the stealing order, the partition of slots
//! into states, and how a strike and a key release meet.

use vstd::prelude::*;
use crate::engine::{VoiceSlot, VoiceState, AGE_LIMIT};
use crate::slot_table::{
    chosen_slot, count_slots, damp_sustained, faded_slot, freed_slot, frees, has_free, has_held,
    in_state, is_active, lists_indices, lists_where, note_in_state, oldest_held, priority,
    release_sustained_slot, reset_slot, slot_ok, slots_ok, struck_slot,
};
use crate::tables::{MIDI_HI, MIDI_LO};

verus! {

/// Stealing order: a new note takes a free slot when there is one;
/// otherwise it steals the oldest releasing voice, else the oldest sustained
/// voice (its key is already up), and only else the oldest held voice.
/// Stated for ages below `u64::MAX / 4`, which the counter reaches only
/// after that many notes.
pub proof fn lemma_allocation_priority(s: Seq<VoiceSlot>, k: int)
    requires
        chosen_slot(s, k),
        forall|i: int| 0 <= i < s.len() ==> (#[trigger] s[i]).age < u64::MAX / 4,
    ensures
        has_free(s) ==> s[k].state == VoiceState::Free,
        has_free(s) ==> forall|j: int| 0 <= j < k ==> #[trigger] s[j].state != VoiceState::Free,
        !has_free(s) ==> s[k].state != VoiceState::Free,
        !has_free(s) ==> forall|j: int| 0 <= j < s.len() && #[trigger] s[j].state == s[k].state
            ==> s[k].age <= s[j].age,
        !has_free(s) && (exists|j: int| 0 <= j < s.len() && #[trigger] s[j].state == VoiceState::Releasing)
            ==> s[k].state == VoiceState::Releasing,
        !has_free(s) && (exists|j: int| 0 <= j < s.len() && #[trigger] s[j].state == VoiceState::Sustained)
            ==> s[k].state != VoiceState::Held,
{
    if !has_free(s) {
        assert(s[k].state != VoiceState::Free);
        assert forall|j: int| 0 <= j < s.len() && #[trigger] s[j].state == s[k].state implies s[k].age <= s[j].age by {
            assert(priority(s[k]) <= priority(s[j]));
        }
        if exists|j: int| 0 <= j < s.len() && #[trigger] s[j].state == VoiceState::Releasing {
            let j = choose|j: int| 0 <= j < s.len() && #[trigger] s[j].state == VoiceState::Releasing;
            assert(priority(s[k]) <= priority(s[j]));
        }
        if exists|j: int| 0 <= j < s.len() && #[trigger] s[j].state == VoiceState::Sustained {
            let j = choose|j: int| 0 <= j < s.len() && #[trigger] s[j].state == VoiceState::Sustained;
            assert(priority(s[k]) <= priority(s[j]));
        }
    }
}

/// Every slot is in exactly one state: the counts of the four states add
/// up to the number of slots, and the active count is all but the free ones.
pub proof fn lemma_state_counts(s: Seq<VoiceSlot>)
    ensures
        count_slots(s, in_state(VoiceState::Free)) + count_slots(s, in_state(VoiceState::Held))
            + count_slots(s, in_state(VoiceState::Sustained)) + count_slots(s, in_state(VoiceState::Releasing))
            == s.len(),
        count_slots(s, is_active()) + count_slots(s, in_state(VoiceState::Free)) == s.len(),
    decreases s.len(),
{
    if s.len() > 0 {
        lemma_state_counts(s.drop_last());
    }
}

/// Damping the sustained voices of a note frees no slot, so a note struck
/// while a slot is free steals no voice.
pub proof fn lemma_free_slot_no_steal(s: Seq<VoiceSlot>, note: u8, k: int)
    requires
        has_free(s),
        chosen_slot(damp_sustained(s, note), k),
    ensures
        damp_sustained(s, note)[k].state == VoiceState::Free,
{
    let w = choose|w: int| 0 <= w < s.len() && #[trigger] s[w].state == VoiceState::Free;
    assert(damp_sustained(s, note)[w].state == VoiceState::Free);
}

/// Releasing a key right after striking it reaches the voice the strike
/// started, when no other voice of that note was held: the struck slot is
/// the one `note_off` picks.
pub proof fn lemma_release_finds_struck_voice(s: Seq<VoiceSlot>, ac: u64, note: u8, k: int, fade: u32)
    requires
        slots_ok(s, ac),
        ac < AGE_LIMIT,
        MIDI_LO <= note <= MIDI_HI,
        !has_held(s, note),
        chosen_slot(damp_sustained(s, note), k),
    ensures
        has_held(
            damp_sustained(s, note).update(k, struck_slot(damp_sustained(s, note)[k], note, (ac + 1) as u64, fade)),
            note,
        ),
        oldest_held(
            damp_sustained(s, note).update(k, struck_slot(damp_sustained(s, note)[k], note, (ac + 1) as u64, fade)),
            note,
            k,
        ),
{
    let d = damp_sustained(s, note);
    let n = d.update(k, struck_slot(d[k], note, (ac + 1) as u64, fade));
    assert(note_in_state(note, VoiceState::Held)(n[k]));
    assert forall|j: int| 0 <= j < n.len() && #[trigger] note_in_state(note, VoiceState::Held)(n[j]) implies j == k by {
        if j != k {
            assert(note_in_state(note, VoiceState::Held)(s[j]));
        }
    }
}

/// Cleanup frees every sounding slot whose voice has decayed to silence,
/// whatever its state (held, sustained or releasing), lists exactly those
/// slots, and leaves every other slot as it was.
pub proof fn lemma_cleanup_frees_silent_voices(
    old: Seq<VoiceSlot>,
    silent: Seq<bool>,
    new: Seq<VoiceSlot>,
    freed: Seq<usize>,
)
    requires
        old.len() <= usize::MAX,
        silent.len() == old.len(),
        new.len() == old.len(),
        forall|i: int| 0 <= i < old.len() ==> #[trigger] new[i] == if frees(old[i], silent[i]) {
            freed_slot(old[i])
        } else {
            old[i]
        },
        lists_indices(freed, old.len() as int, |i: int| frees(old[i], silent[i])),
    ensures
        forall|i: int| 0 <= i < old.len() && old[i].state != VoiceState::Free && old[i].has_voice
            && silent[i] ==> {
            &&& #[trigger] new[i] == VoiceSlot { state: VoiceState::Free, has_voice: false, ..old[i] }
            &&& freed.contains(i as usize)
        },
        forall|i: int| 0 <= i < old.len() && !(old[i].state != VoiceState::Free && old[i].has_voice
            && silent[i]) ==> {
            &&& #[trigger] new[i] == old[i]
            &&& !freed.contains(i as usize)
        },
{
    let p = |i: int| frees(old[i], silent[i]);
    assert forall|i: int| 0 <= i < old.len() && !(old[i].state != VoiceState::Free && old[i].has_voice
        && silent[i]) implies #[trigger] new[i] == old[i] && !freed.contains(i as usize) by {
        if freed.contains(i as usize) {
            let a = choose|a: int| 0 <= a < freed.len() && freed[a] == i as usize;
            assert(freed[a] as int == i);
            assert(p(freed[a] as int));
        }
    }
    assert forall|i: int| 0 <= i < old.len() && old[i].state != VoiceState::Free && old[i].has_voice
        && silent[i] implies #[trigger] new[i] == VoiceSlot { state: VoiceState::Free, has_voice: false, ..old[i] }
        && freed.contains(i as usize) by {
        assert(p(i));
    }
}

/// Lifting the pedal turns every sustained voice into a releasing one,
/// lists exactly those slots, and leaves every other slot as it was.
pub proof fn lemma_pedal_release_damps_sustained(old: Seq<VoiceSlot>, new: Seq<VoiceSlot>, damped: Seq<usize>)
    requires
        old.len() <= usize::MAX,
        new == old.map_values(|s: VoiceSlot| release_sustained_slot(s)),
        lists_where(damped, old, in_state(VoiceState::Sustained)),
    ensures
        new.len() == old.len(),
        forall|i: int| 0 <= i < old.len() && old[i].state == VoiceState::Sustained ==> {
            &&& #[trigger] new[i] == VoiceSlot { state: VoiceState::Releasing, ..old[i] }
            &&& damped.contains(i as usize)
        },
        forall|i: int| 0 <= i < old.len() && old[i].state != VoiceState::Sustained ==> {
            &&& #[trigger] new[i] == old[i]
            &&& !damped.contains(i as usize)
        },
{
    assert forall|i: int| 0 <= i < old.len() && old[i].state != VoiceState::Sustained
        implies #[trigger] new[i] == old[i] && !damped.contains(i as usize) by {
        if damped.contains(i as usize) {
            let a = choose|a: int| 0 <= a < damped.len() && damped[a] == i as usize;
            assert(damped[a] as int == i);
            assert(in_state(VoiceState::Sustained)(old[damped[a] as int]));
        }
    }
    assert forall|i: int| 0 <= i < old.len() && old[i].state == VoiceState::Sustained
        implies #[trigger] new[i] == VoiceSlot { state: VoiceState::Releasing, ..old[i] }
        && damped.contains(i as usize) by {
        assert(in_state(VoiceState::Sustained)(old[i]));
    }
}

/// What a strike does to the slot table: the chosen slot holds the new
/// note, held, with the next age and a voice; if that slot was sounding,
/// its voice becomes a stolen voice whose fade starts full at
/// `fade` samples, whatever state the stolen voice was in; a free slot
/// keeps its fading stolen voice as it was. Every other slot is unchanged,
/// except that sustained voices of the struck note start releasing.
pub proof fn lemma_strike_slots(
    old: Seq<VoiceSlot>,
    ac: u64,
    note: u8,
    k: int,
    age: u64,
    fade: u32,
    new: Seq<VoiceSlot>,
)
    requires
        slots_ok(old, ac),
        0 <= k < old.len(),
        new == damp_sustained(old, note).update(k, struck_slot(damp_sustained(old, note)[k], note, age, fade)),
    ensures
        new.len() == old.len(),
        damp_sustained(old, note)[k].state != VoiceState::Free <==> old[k].state != VoiceState::Free,
        new[k].state == VoiceState::Held,
        new[k].midi_note == note,
        new[k].age == age,
        new[k].has_voice,
        old[k].state != VoiceState::Free ==> {
            &&& new[k].has_steal_voice
            &&& new[k].steal_fade == fade
            &&& new[k].steal_fade_len == fade
        },
        old[k].state == VoiceState::Free ==> {
            &&& new[k].has_steal_voice == old[k].has_steal_voice
            &&& new[k].steal_fade == old[k].steal_fade
            &&& new[k].steal_fade_len == old[k].steal_fade_len
        },
        forall|i: int| 0 <= i < old.len() && i != k ==> #[trigger] new[i] == if old[i].state
            == VoiceState::Sustained && old[i].midi_note == note {
            VoiceSlot { state: VoiceState::Releasing, ..old[i] }
        } else {
            old[i]
        },
{
    assert(slot_ok(old[k], ac));
}

/// The slot a key release picks holds a held voice of that note, and no
/// held voice of that note is older.
pub proof fn lemma_released_key_is_oldest(s: Seq<VoiceSlot>, note: u8, k: int)
    requires
        oldest_held(s, note, k),
    ensures
        0 <= k < s.len(),
        s[k].state == VoiceState::Held,
        s[k].midi_note == note,
        forall|j: int| 0 <= j < s.len() && #[trigger] s[j].state == VoiceState::Held
            && s[j].midi_note == note ==> s[k].age <= s[j].age,
{
    assert forall|j: int| 0 <= j < s.len() && #[trigger] s[j].state == VoiceState::Held
        && s[j].midi_note == note implies s[k].age <= s[j].age by {
        assert(note_in_state(note, VoiceState::Held)(s[j]));
    }
}

/// After a reset every slot is free, without voice or stolen voice, and its
/// fade count is zero; its note, age and fade length are kept.
pub proof fn lemma_reset_frees_all(old: Seq<VoiceSlot>, new: Seq<VoiceSlot>)
    requires
        new == old.map_values(|s: VoiceSlot| reset_slot(s)),
    ensures
        new.len() == old.len(),
        forall|i: int| 0 <= i < new.len() ==> {
            &&& (#[trigger] new[i]).state == VoiceState::Free
            &&& !new[i].has_voice
            &&& !new[i].has_steal_voice
            &&& new[i].steal_fade == 0
            &&& new[i].midi_note == old[i].midi_note
            &&& new[i].age == old[i].age
            &&& new[i].steal_fade_len == old[i].steal_fade_len
        },
{
}

/// A block of `len` samples takes `len` samples off a running stolen-voice
/// fade (down to zero), and the stolen voice is dropped exactly when the
/// fade runs out; a slot without a stolen voice is untouched, and nothing
/// but the fade changes.
pub proof fn lemma_steal_fade_counts_down(s: VoiceSlot, len: u32)
    ensures
        s.has_steal_voice ==> {
            &&& faded_slot(s, len).steal_fade as int == if s.steal_fade >= len { s.steal_fade - len } else { 0 }
            &&& faded_slot(s, len).has_steal_voice == (s.steal_fade > len)
            &&& faded_slot(s, len).state == s.state
            &&& faded_slot(s, len).has_voice == s.has_voice
            &&& faded_slot(s, len).midi_note == s.midi_note
            &&& faded_slot(s, len).age == s.age
            &&& faded_slot(s, len).steal_fade_len == s.steal_fade_len
        },
        !s.has_steal_voice ==> faded_slot(s, len) == s,
{
}

/// A voice dropped after a fault leaves its slot free and without a voice;
/// nothing else of the slot changes.
pub proof fn lemma_faulted_voice_freed(s: VoiceSlot)
    ensures
        freed_slot(s).state == VoiceState::Free,
        !freed_slot(s).has_voice,
        freed_slot(s).has_steal_voice == s.has_steal_voice,
        freed_slot(s).steal_fade == s.steal_fade,
        freed_slot(s).steal_fade_len == s.steal_fade_len,
        freed_slot(s).midi_note == s.midi_note,
        freed_slot(s).age == s.age,
{
}

} // verus!
