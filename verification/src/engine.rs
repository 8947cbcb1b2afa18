//! Voice management of the Wurlitzer engine: slot allocation, stealing,
//! sustain pedal and the life cycle of each voice slot.
//!
//! The engine owns `MAX_VOICES` slots. Each slot is in one of four states;
//! a slot that is not `Free` carries a sounding voice. The sample-level
//! synthesis of a voice is done by the host of this state machine: every
//! transition returns the indices of the slots whose voices it must damp,
//! start, steal or drop.

use vstd::prelude::*;
use crate::slot_table::{
    chosen_slot, count_slots, damp_sustained, damp_sustained_slot, faded_slot, freed_slot, frees,
    has_free, has_held, in_state, is_active, lemma_count_map, lemma_count_none, lemma_count_update,
    lemma_damp_ok, lemma_same_shape_ok, lemma_strike_ok, lists_indices, lists_where,
    note_in_state, oldest_held, priority, release_sustained_slot, reset_slot, slot_ok, slots_ok,
    spec_empty_slot, struck_slot,
};
use crate::tables::{clamp_note, spec_clamp_note};
use crate::voice_laws::{
    lemma_cleanup_frees_silent_voices, lemma_faulted_voice_freed, lemma_pedal_release_damps_sustained,
    lemma_released_key_is_oldest, lemma_reset_frees_all, lemma_steal_fade_counts_down, lemma_strike_slots,
};

verus! {

/// Number of voice slots: 12-voice polyphony.
pub const MAX_VOICES: usize = 12;

/// Largest age counter value at which a note can still be started: voice
/// ages stay at or below `2^63`, so every stealing priority fits in a `u64`.
pub const AGE_LIMIT: u64 = 0x8000_0000_0000_0000;

/// Voice slot lifecycle. Public for engine introspection from tests and
/// debug tooling.
#[derive(Clone, Copy, Debug, PartialEq, Eq, Structural)]
pub enum VoiceState {
    Free,
    Held,
    /// Key released while sustain pedal was down — reed rings undamped.
    Sustained,
    Releasing,
}

/// One voice slot as the engine tracks it.
///
/// `has_voice` and `has_steal_voice` say whether the host holds a sounding
/// voice, and a voice being faded out after it was stolen, for this slot.
/// `steal_fade` counts the samples left of that fade, out of
/// `steal_fade_len`.
#[derive(Clone, Copy, Debug, PartialEq, Eq, Structural)]
pub struct VoiceSlot {
    pub state: VoiceState,
    pub midi_note: u8,
    pub age: u64,
    pub has_voice: bool,
    pub has_steal_voice: bool,
    pub steal_fade: u32,
    pub steal_fade_len: u32,
}

impl Default for VoiceSlot {
    fn default() -> (s: Self)
        ensures
            s == spec_empty_slot(),
    {
        VoiceSlot {
            state: VoiceState::Free,
            midi_note: 0,
            age: 0,
            has_voice: false,
            has_steal_voice: false,
            steal_fade: 0,
            steal_fade_len: 0,
        }
    }
}

/// The mathematical state of the engine's voice management.
pub struct EngineView {
    pub slots: Seq<VoiceSlot>,
    pub age_counter: u64,
    pub sustain_held: bool,
    pub mlp_enabled: bool,
    pub nan_guard_fires: u64,
}

/// Voice-management state of the Wurlitzer 200A engine.
pub struct WurliEngine {
    voices: Vec<VoiceSlot>,
    age_counter: u64,
    sustain_held: bool,
    mlp_enabled: bool,
    nan_guard_fires: u64,
}

impl View for WurliEngine {
    type V = EngineView;

    closed spec fn view(&self) -> EngineView {
        EngineView {
            slots: self.voices@,
            age_counter: self.age_counter,
            sustain_held: self.sustain_held,
            mlp_enabled: self.mlp_enabled,
            nan_guard_fires: self.nan_guard_fires,
        }
    }
}

/// What the host does to start a note: damp the voices in `damped`, move
/// the voice of `slot` to its stolen-voice place if `stolen`, then start a
/// voice for `note` in `slot` with `noise_seed`.
pub struct NoteOnAction {
    pub note: u8,
    pub slot: usize,
    pub damped: Vec<usize>,
    pub stolen: bool,
    pub noise_seed: u32,
    pub mlp_enabled: bool,
}

impl WurliEngine {
    /// The engine's invariant.
    pub open spec fn wf(&self) -> bool {
        slots_ok(self@.slots, self@.age_counter)
    }

    /// A fresh engine: every slot empty, no notes played, pedal up.
    pub fn new() -> (e: Self)
        ensures
            e.wf(),
            e@.slots == Seq::new(MAX_VOICES as nat, |i: int| spec_empty_slot()),
            e@.slots.len() == MAX_VOICES,
            forall|i: int| 0 <= i < MAX_VOICES ==> {
                &&& (#[trigger] e@.slots[i]).state == VoiceState::Free
                &&& !e@.slots[i].has_voice
                &&& !e@.slots[i].has_steal_voice
                &&& e@.slots[i].steal_fade == 0
            },
            e@.age_counter == 0,
            !e@.sustain_held,
            !e@.mlp_enabled,
            e@.nan_guard_fires == 0,
    {
        let mut voices: Vec<VoiceSlot> = Vec::new();
        let mut i: usize = 0;
        while i < MAX_VOICES
            invariant
                i <= MAX_VOICES,
                voices@ == Seq::new(i as nat, |k: int| spec_empty_slot()),
            decreases MAX_VOICES - i,
        {
            voices.push(VoiceSlot::default());
            i += 1;
        }
        let e = WurliEngine {
            voices,
            age_counter: 0,
            sustain_held: false,
            mlp_enabled: false,
            nan_guard_fires: 0,
        };
        e
    }

    /// Number of voice slots.
    pub fn slot_count(&self) -> (n: usize)
        ensures
            n == self@.slots.len(),
    {
        self.voices.len()
    }

    /// Counts the slots that satisfy `p`, with `f` computing `p`.
    fn count_where(&self, p: Ghost<spec_fn(VoiceSlot) -> bool>, f: impl Fn(&VoiceSlot) -> bool) -> (n: usize)
        requires
            forall|s: VoiceSlot| #[trigger] f.requires((&s,)),
            forall|s: VoiceSlot, b: bool| f.ensures((&s,), b) ==> b == (p@)(s),
        ensures
            n == count_slots(self@.slots, p@),
    {
        let mut n: usize = 0;
        let mut i: usize = 0;
        while i < self.voices.len()
            invariant
                i <= self.voices@.len(),
                n == count_slots(self.voices@.take(i as int), p@),
                n <= i,
                forall|s: VoiceSlot| #[trigger] f.requires((&s,)),
                forall|s: VoiceSlot, b: bool| f.ensures((&s,), b) ==> b == (p@)(s),
            decreases self.voices@.len() - i,
        {
            assert(self.voices@.take(i + 1).drop_last() =~= self.voices@.take(i as int));
            let b = f(&self.voices[i]);
            if b {
                n += 1;
            }
            i += 1;
        }
        assert(self.voices@.take(i as int) =~= self.voices@);
        n
    }

    /// Number of slots that are not `Free`.
    pub fn active_voice_count(&self) -> (n: usize)
        ensures
            n == count_slots(self@.slots, is_active()),
    {
        self.count_where(Ghost(is_active()), |s: &VoiceSlot| -> (b: bool)
            ensures b == (s.state != VoiceState::Free)
            { s.state != VoiceState::Free })
    }

    /// Number of slots in the `Held` state.
    pub fn held_voice_count(&self) -> (n: usize)
        ensures
            n == count_slots(self@.slots, in_state(VoiceState::Held)),
    {
        self.count_voices_in_state(VoiceState::Held)
    }

    /// Number of slots in the `Sustained` state.
    pub fn sustained_voice_count(&self) -> (n: usize)
        ensures
            n == count_slots(self@.slots, in_state(VoiceState::Sustained)),
    {
        self.count_voices_in_state(VoiceState::Sustained)
    }

    /// Number of slots in `state`.
    pub fn count_voices_in_state(&self, state: VoiceState) -> (n: usize)
        ensures
            n == count_slots(self@.slots, in_state(state)),
    {
        self.count_where(Ghost(in_state(state)), |s: &VoiceSlot| -> (b: bool)
            ensures b == (s.state == state)
            { s.state == state })
    }

    /// Number of slots in `state` that play `note`.
    pub fn count_voices_with_note_in_state(&self, note: u8, state: VoiceState) -> (n: usize)
        ensures
            n == count_slots(self@.slots, note_in_state(note, state)),
    {
        self.count_where(Ghost(note_in_state(note, state)), |s: &VoiceSlot| -> (b: bool)
            ensures b == (s.state == state && s.midi_note == note)
            { s.state == state && s.midi_note == note })
    }
    /// The slot that a new note takes: the first free slot if there is one,
    /// else the oldest releasing, then the oldest sustained, then the oldest
    /// held voice.
    fn allocate_voice(&self) -> (k: usize)
        requires
            self.wf(),
            self@.age_counter < AGE_LIMIT,
        ensures
            chosen_slot(self@.slots, k as int),
    {
        let ghost s = self.voices@;
        let mut best_idx: usize = 0;
        let mut best_priority: u64 = u64::MAX;
        let mut i: usize = 0;
        while i < self.voices.len()
            invariant
                s == self.voices@,
                self.wf(),
                self@.age_counter < AGE_LIMIT,
                i <= s.len(),
                forall|j: int| 0 <= j < i ==> #[trigger] s[j].state != VoiceState::Free,
                i == 0 ==> best_idx == 0 && best_priority == u64::MAX,
                i > 0 ==> {
                    &&& best_idx < i
                    &&& best_priority == priority(s[best_idx as int])
                    &&& forall|j: int| 0 <= j < i ==> best_priority <= #[trigger] priority(s[j])
                    &&& forall|j: int| 0 <= j < best_idx ==> best_priority < #[trigger] priority(s[j])
                },
            decreases s.len() - i,
        {
            let slot = self.voices[i];
            assert(slot_ok(s[i as int], self@.age_counter));
            let p: u64 = match slot.state {
                VoiceState::Free => {
                    return i;
                },
                VoiceState::Releasing => slot.age,
                VoiceState::Sustained => slot.age + u64::MAX / 4,
                VoiceState::Held => slot.age + u64::MAX / 2,
            };
            if p < best_priority {
                best_priority = p;
                best_idx = i;
            }
            i += 1;
        }
        proof {
            if has_free(s) {
                let w = choose|w: int| 0 <= w < s.len() && #[trigger] s[w].state == VoiceState::Free;
                assert(s[w].state != VoiceState::Free);
            }
        }
        best_idx
    }
    /// Strikes `note` (clamped to the keyboard). A sustained voice of the same
    /// note is damped first (the 200A has one reed per pitch); the note then
    /// takes the slot that `chosen_slot` names, stealing its voice with a
    /// linear fade of `steal_fade_samples` samples if the slot was sounding.
    pub fn note_on(&mut self, note: u8, steal_fade_samples: u32) -> (action: NoteOnAction)
        requires
            old(self).wf(),
            old(self)@.age_counter < AGE_LIMIT,
        ensures
            final(self).wf(),
            action.note == spec_clamp_note(note),
            lists_where(action.damped@, old(self)@.slots, note_in_state(action.note, VoiceState::Sustained)),
            chosen_slot(damp_sustained(old(self)@.slots, action.note), action.slot as int),
            action.stolen == (damp_sustained(old(self)@.slots, action.note)[action.slot as int].state
                != VoiceState::Free),
            final(self)@.slots == damp_sustained(old(self)@.slots, action.note).update(
                action.slot as int,
                struck_slot(
                    damp_sustained(old(self)@.slots, action.note)[action.slot as int],
                    action.note,
                    final(self)@.age_counter,
                    steal_fade_samples,
                ),
            ),
            final(self)@.age_counter == old(self)@.age_counter + 1,
            action.noise_seed == spec_noise_seed(action.note, final(self)@.age_counter),
            action.mlp_enabled == old(self)@.mlp_enabled,
            final(self)@.sustain_held == old(self)@.sustain_held,
            final(self)@.mlp_enabled == old(self)@.mlp_enabled,
            final(self)@.nan_guard_fires == old(self)@.nan_guard_fires,
            // the struck slot: held, the note, the next age, a voice
            final(self)@.slots.len() == old(self)@.slots.len(),
            action.slot < old(self)@.slots.len(),
            action.stolen == (old(self)@.slots[action.slot as int].state != VoiceState::Free),
            final(self)@.slots[action.slot as int].state == VoiceState::Held,
            final(self)@.slots[action.slot as int].midi_note == action.note,
            final(self)@.slots[action.slot as int].age == final(self)@.age_counter,
            final(self)@.slots[action.slot as int].has_voice,
            // a free slot, when there is one, is taken: the lowest one, and nothing is stolen
            (exists|i: int| 0 <= i < old(self)@.slots.len() && #[trigger] old(self)@.slots[i].state
                == VoiceState::Free) ==> {
                &&& old(self)@.slots[action.slot as int].state == VoiceState::Free
                &&& forall|j: int| 0 <= j < action.slot ==> #[trigger] old(self)@.slots[j].state != VoiceState::Free
            },
            // a stolen voice, whatever its state, fades out from full over the fade length
            action.stolen ==> {
                &&& final(self)@.slots[action.slot as int].has_steal_voice
                &&& final(self)@.slots[action.slot as int].steal_fade == steal_fade_samples
                &&& final(self)@.slots[action.slot as int].steal_fade_len == steal_fade_samples
            },
            !action.stolen ==> {
                &&& final(self)@.slots[action.slot as int].has_steal_voice
                    == old(self)@.slots[action.slot as int].has_steal_voice
                &&& final(self)@.slots[action.slot as int].steal_fade == old(self)@.slots[action.slot as int].steal_fade
                &&& final(self)@.slots[action.slot as int].steal_fade_len
                    == old(self)@.slots[action.slot as int].steal_fade_len
            },
            // other slots: sustained voices of the note start releasing, the rest stay
            forall|i: int| 0 <= i < old(self)@.slots.len() && i != action.slot ==> #[trigger] final(self)@.slots[i]
                == if old(self)@.slots[i].state == VoiceState::Sustained && old(self)@.slots[i].midi_note
                    == action.note {
                VoiceSlot { state: VoiceState::Releasing, ..old(self)@.slots[i] }
            } else {
                old(self)@.slots[i]
            },
            forall|i: int| 0 <= i < old(self)@.slots.len() ==> (#[trigger] action.damped@.contains(i as usize)
                <==> old(self)@.slots[i].state == VoiceState::Sustained && old(self)@.slots[i].midi_note
                    == action.note),
            // no voice of the struck note is left ringing under the pedal
            forall|i: int| 0 <= i < final(self)@.slots.len() ==>
                !(#[trigger] final(self)@.slots[i].state == VoiceState::Sustained
                    && final(self)@.slots[i].midi_note == action.note),
            // the held count grows by one unless a held voice was stolen
            count_slots(final(self)@.slots, in_state(VoiceState::Held))
                == count_slots(old(self)@.slots, in_state(VoiceState::Held))
                    + if damp_sustained(old(self)@.slots, action.note)[action.slot as int].state
                        == VoiceState::Held { 0int } else { 1int },
    {
        let note = clamp_note(note);
        let ghost old_slots = self.voices@;
        let mut damped: Vec<usize> = Vec::new();
        let mut i: usize = 0;
        while i < self.voices.len()
            invariant
                self.voices@.len() == old_slots.len(),
                self.age_counter == old(self).age_counter,
                self.sustain_held == old(self).sustain_held,
                self.mlp_enabled == old(self).mlp_enabled,
                self.nan_guard_fires == old(self).nan_guard_fires,
                old_slots == old(self).voices@,
                i <= old_slots.len(),
                forall|j: int| 0 <= j < i ==> #[trigger] self.voices@[j] == damp_sustained_slot(old_slots[j], note),
                forall|j: int| i <= j < old_slots.len() ==> #[trigger] self.voices@[j] == old_slots[j],
                forall|a: int, b: int| 0 <= a < b < damped@.len() ==> damped@[a] < damped@[b],
                forall|a: int| 0 <= a < damped@.len() ==> damped@[a] < i
                    && note_in_state(note, VoiceState::Sustained)(old_slots[damped@[a] as int]),
                forall|j: int| 0 <= j < i && note_in_state(note, VoiceState::Sustained)(old_slots[j])
                    ==> damped@.contains(j as usize),
            decreases old_slots.len() - i,
        {
            let slot = self.voices[i];
            if slot.state == VoiceState::Sustained && slot.midi_note == note {
                let damped_slot = VoiceSlot { state: VoiceState::Releasing, ..slot };
                self.voices[i] = damped_slot;
                let ghost before = damped@;
                damped.push(i);
                proof {
                    assert forall|j: int| 0 <= j < i && note_in_state(note, VoiceState::Sustained)(old_slots[j])
                        implies damped@.contains(j as usize) by {
                        let w = choose|w: int| 0 <= w < before.len() && before[w] == j as usize;
                        assert(damped@[w] == j as usize);
                    }
                    assert(damped@[damped@.len() - 1] == i);
                }
            }
            i += 1;
        }
        let ghost d = damp_sustained(old_slots, note);
        assert(self.voices@ =~= d);
        proof {
            lemma_damp_ok(old_slots, self.age_counter, note);
        }
        let k = self.allocate_voice();
        let old_slot = self.voices[k];
        let mut slot = old_slot;
        let stolen = old_slot.state != VoiceState::Free;
        if stolen {
            slot.has_steal_voice = old_slot.has_voice;
            slot.steal_fade = steal_fade_samples;
            slot.steal_fade_len = steal_fade_samples;
        }
        self.age_counter = self.age_counter + 1;
        let noise_seed = noise_seed(note, self.age_counter);
        slot.state = VoiceState::Held;
        slot.midi_note = note;
        slot.age = self.age_counter;
        slot.has_voice = true;
        self.voices[k] = slot;
        proof {
            lemma_strike_ok(d, old(self).age_counter, k as int, note, steal_fade_samples);
            lemma_count_map(old_slots, |s: VoiceSlot| damp_sustained_slot(s, note), in_state(VoiceState::Held));
            lemma_count_update(d, k as int, slot, in_state(VoiceState::Held));
            lemma_strike_slots(old_slots, old(self).age_counter, note, k as int, self.age_counter,
                steal_fade_samples, self.voices@);
            if exists|i: int| 0 <= i < old_slots.len() && #[trigger] old_slots[i].state == VoiceState::Free {
                let w = choose|i: int| 0 <= i < old_slots.len() && #[trigger] old_slots[i].state == VoiceState::Free;
                assert(d[w].state == VoiceState::Free);
                assert(has_free(d));
                assert forall|j: int| 0 <= j < k implies #[trigger] old_slots[j].state != VoiceState::Free by {
                    assert(d[j].state != VoiceState::Free);
                }
            }
            assert forall|i: int| 0 <= i < old_slots.len() implies (#[trigger] damped@.contains(i as usize)
                <==> old_slots[i].state == VoiceState::Sustained && old_slots[i].midi_note == note) by {
                if damped@.contains(i as usize) {
                    let a = choose|a: int| 0 <= a < damped@.len() && damped@[a] == i as usize;
                    assert(damped@[a] as int == i);
                    assert(note_in_state(note, VoiceState::Sustained)(old_slots[damped@[a] as int]));
                }
                if old_slots[i].state == VoiceState::Sustained && old_slots[i].midi_note == note {
                    assert(note_in_state(note, VoiceState::Sustained)(old_slots[i]));
                }
            }
        }
        NoteOnAction { note, slot: k, damped, stolen, noise_seed, mlp_enabled: self.mlp_enabled }
    }
}

impl WurliEngine {
    /// Releases the key of `note` (clamped to the keyboard): its oldest held
    /// voice becomes sustained if the pedal is down, else it starts
    /// releasing and the host damps it. Returns the slot of that voice, or
    /// `None` when no held voice plays the note (nothing changes then).
    pub fn note_off(&mut self, note: u8) -> (released: Option<usize>)
        requires
            old(self).wf(),
        ensures
            final(self).wf(),
            released is None <==> !has_held(old(self)@.slots, spec_clamp_note(note)),
            released is None ==> final(self)@.slots == old(self)@.slots,
            released is None ==> forall|j: int| 0 <= j < old(self)@.slots.len() ==> !(
                #[trigger] old(self)@.slots[j].state == VoiceState::Held && old(self)@.slots[j].midi_note
                    == spec_clamp_note(note)),
            released matches Some(k) ==> {
                &&& k < old(self)@.slots.len()
                &&& old(self)@.slots[k as int].state == VoiceState::Held
                &&& old(self)@.slots[k as int].midi_note == spec_clamp_note(note)
                &&& forall|j: int| 0 <= j < old(self)@.slots.len()
                    && #[trigger] old(self)@.slots[j].state == VoiceState::Held
                    && old(self)@.slots[j].midi_note == spec_clamp_note(note)
                    ==> old(self)@.slots[k as int].age <= old(self)@.slots[j].age
            },
            released matches Some(k) ==> {
                &&& oldest_held(old(self)@.slots, spec_clamp_note(note), k as int)
                &&& final(self)@.slots == old(self)@.slots.update(
                    k as int,
                    VoiceSlot {
                        state: if old(self)@.sustain_held { VoiceState::Sustained } else { VoiceState::Releasing },
                        ..old(self)@.slots[k as int]
                    },
                )
            },
            final(self)@.age_counter == old(self)@.age_counter,
            final(self)@.sustain_held == old(self)@.sustain_held,
            final(self)@.mlp_enabled == old(self)@.mlp_enabled,
            final(self)@.nan_guard_fires == old(self)@.nan_guard_fires,
    {
        let note = clamp_note(note);
        let ghost s = self.voices@;
        let ghost p = note_in_state(note, VoiceState::Held);
        let mut best: Option<usize> = None;
        let mut i: usize = 0;
        while i < self.voices.len()
            invariant
                s == self.voices@,
                p == note_in_state(note, VoiceState::Held),
                i <= s.len(),
                best is None ==> forall|j: int| 0 <= j < i ==> !#[trigger] p(s[j]),
                best matches Some(b) ==> {
                    &&& b < i
                    &&& p(s[b as int])
                    &&& forall|j: int| 0 <= j < i && #[trigger] p(s[j]) ==> s[b as int].age <= s[j].age
                    &&& forall|j: int| 0 <= j < b && #[trigger] p(s[j]) ==> s[b as int].age < s[j].age
                },
            decreases s.len() - i,
        {
            let slot = self.voices[i];
            if slot.state == VoiceState::Held && slot.midi_note == note {
                match best {
                    None => {
                        best = Some(i);
                    },
                    Some(b) => {
                        if slot.age < self.voices[b].age {
                            best = Some(i);
                        }
                    },
                }
            }
            i += 1;
        }
        match best {
            None => {
                proof {
                    assert forall|j: int| 0 <= j < s.len() implies !(#[trigger] s[j].state == VoiceState::Held
                        && s[j].midi_note == note) by {
                        assert(!p(s[j]));
                    }
                    if has_held(s, note) {
                        let w = choose|w: int| 0 <= w < s.len() && #[trigger] p(s[w]);
                        assert(!p(s[w]));
                    }
                }
                None
            },
            Some(k) => {
                let old_slot = self.voices[k];
                let new_state = if self.sustain_held { VoiceState::Sustained } else { VoiceState::Releasing };
                let slot = VoiceSlot { state: new_state, ..old_slot };
                self.voices[k] = slot;
                proof {
                    assert(slot_ok(s[k as int], self.age_counter));
                    lemma_same_shape_ok(s, self.age_counter, k as int, slot);
                    lemma_released_key_is_oldest(s, note, k as int);
                }
                Some(k)
            },
        }
    }

    /// Moves the sustain pedal. Lifting it damps every sustained voice;
    /// returns their slots, which the host damps.
    pub fn set_sustain(&mut self, held: bool) -> (damped: Vec<usize>)
        requires
            old(self).wf(),
        ensures
            final(self).wf(),
            final(self)@.sustain_held == held,
            if old(self)@.sustain_held && !held {
                &&& final(self)@.slots == old(self)@.slots.map_values(|s: VoiceSlot| release_sustained_slot(s))
                &&& lists_where(damped@, old(self)@.slots, in_state(VoiceState::Sustained))
                // every sustained voice starts releasing and is listed; every other slot stays
                &&& forall|i: int| 0 <= i < old(self)@.slots.len() && old(self)@.slots[i].state
                    == VoiceState::Sustained ==> {
                    &&& #[trigger] final(self)@.slots[i]
                        == VoiceSlot { state: VoiceState::Releasing, ..old(self)@.slots[i] }
                    &&& damped@.contains(i as usize)
                }
                &&& forall|i: int| 0 <= i < old(self)@.slots.len() && old(self)@.slots[i].state
                    != VoiceState::Sustained ==> !(#[trigger] damped@.contains(i as usize))
                // no voice is left sustained, and voices still held by their keys stay held
                &&& forall|i: int| 0 <= i < final(self)@.slots.len() ==>
                    #[trigger] final(self)@.slots[i].state != VoiceState::Sustained
                &&& forall|i: int| 0 <= i < old(self)@.slots.len()
                    && old(self)@.slots[i].state != VoiceState::Sustained
                    ==> #[trigger] final(self)@.slots[i] == old(self)@.slots[i]
            } else {
                &&& final(self)@.slots == old(self)@.slots
                &&& damped@.len() == 0
            },
            final(self)@.age_counter == old(self)@.age_counter,
            final(self)@.mlp_enabled == old(self)@.mlp_enabled,
            final(self)@.nan_guard_fires == old(self)@.nan_guard_fires,
    {
        let mut damped: Vec<usize> = Vec::new();
        if self.sustain_held && !held {
            let ghost old_slots = self.voices@;
            let ghost p = in_state(VoiceState::Sustained);
            let mut i: usize = 0;
            while i < self.voices.len()
                invariant
                    self.voices@.len() == old_slots.len(),
                    old_slots == old(self).voices@,
                    self.age_counter == old(self).age_counter,
                    self.mlp_enabled == old(self).mlp_enabled,
                    self.nan_guard_fires == old(self).nan_guard_fires,
                    self.sustain_held == old(self).sustain_held,
                    p == in_state(VoiceState::Sustained),
                    i <= old_slots.len(),
                    forall|j: int| 0 <= j < i ==> #[trigger] self.voices@[j] == release_sustained_slot(old_slots[j]),
                    forall|j: int| i <= j < old_slots.len() ==> #[trigger] self.voices@[j] == old_slots[j],
                    forall|a: int, b: int| 0 <= a < b < damped@.len() ==> damped@[a] < damped@[b],
                    forall|a: int| 0 <= a < damped@.len() ==> damped@[a] < i && p(old_slots[damped@[a] as int]),
                    forall|j: int| 0 <= j < i && p(old_slots[j]) ==> damped@.contains(j as usize),
                decreases old_slots.len() - i,
            {
                let slot = self.voices[i];
                if slot.state == VoiceState::Sustained {
                    self.voices[i] = VoiceSlot { state: VoiceState::Releasing, ..slot };
                    let ghost before = damped@;
                    damped.push(i);
                    proof {
                        assert forall|j: int| 0 <= j < i && p(old_slots[j]) implies damped@.contains(j as usize) by {
                            let w = choose|w: int| 0 <= w < before.len() && before[w] == j as usize;
                            assert(damped@[w] == j as usize);
                        }
                        assert(damped@[damped@.len() - 1] == i);
                    }
                }
                i += 1;
            }
            assert(self.voices@ =~= old_slots.map_values(|s: VoiceSlot| release_sustained_slot(s)));
            proof {
                lemma_pedal_release_damps_sustained(old_slots, self.voices@, damped@);
                let n = self.voices@;
                let ac = self.age_counter;
                assert forall|i: int| 0 <= i < n.len() implies #[trigger] slot_ok(n[i], ac) by {
                    assert(slot_ok(old_slots[i], ac));
                }
                assert forall|i: int, j: int|
                    0 <= i < n.len() && 0 <= j < n.len() && i != j
                        && n[i].state != VoiceState::Free && n[j].state != VoiceState::Free
                    implies #[trigger] n[i].age != #[trigger] n[j].age by {
                    assert(old_slots[i].age != old_slots[j].age);
                }
            }
        }
        self.sustain_held = held;
        damped
    }

    /// Frees every slot and forgets the pedal and the note ages.
    pub fn reset(&mut self)
        requires
            old(self).wf(),
        ensures
            final(self).wf(),
            final(self)@.slots == old(self)@.slots.map_values(|s: VoiceSlot| reset_slot(s)),
            count_slots(final(self)@.slots, is_active()) == 0,
            final(self)@.slots.len() == old(self)@.slots.len(),
            forall|i: int| 0 <= i < final(self)@.slots.len() ==> {
                &&& (#[trigger] final(self)@.slots[i]).state == VoiceState::Free
                &&& !final(self)@.slots[i].has_voice
                &&& !final(self)@.slots[i].has_steal_voice
                &&& final(self)@.slots[i].steal_fade == 0
            },
            final(self)@.age_counter == 0,
            !final(self)@.sustain_held,
            final(self)@.mlp_enabled == old(self)@.mlp_enabled,
            final(self)@.nan_guard_fires == old(self)@.nan_guard_fires,
    {
        let ghost old_slots = self.voices@;
        let mut i: usize = 0;
        while i < self.voices.len()
            invariant
                self.voices@.len() == old_slots.len(),
                old_slots == old(self).voices@,
                self.mlp_enabled == old(self).mlp_enabled,
                self.nan_guard_fires == old(self).nan_guard_fires,
                i <= old_slots.len(),
                forall|j: int| 0 <= j < i ==> #[trigger] self.voices@[j] == reset_slot(old_slots[j]),
                forall|j: int| i <= j < old_slots.len() ==> #[trigger] self.voices@[j] == old_slots[j],
            decreases old_slots.len() - i,
        {
            let slot = self.voices[i];
            self.voices[i] = VoiceSlot {
                state: VoiceState::Free,
                has_voice: false,
                has_steal_voice: false,
                steal_fade: 0,
                ..slot
            };
            i += 1;
        }
        self.age_counter = 0;
        self.sustain_held = false;
        assert(self.voices@ =~= old_slots.map_values(|s: VoiceSlot| reset_slot(s)));
        proof {
            let n = self.voices@;
            assert forall|i: int| 0 <= i < n.len() implies #[trigger] slot_ok(n[i], 0) by {
                assert(slot_ok(old_slots[i], old(self).age_counter));
            }
            lemma_count_none(n, is_active());
            lemma_reset_frees_all(old_slots, n);
        }
    }

    /// Frees the slots whose voice has decayed to silence (`silent[i]`
    /// for slot `i`); returns them, and the host drops their voices.
    pub fn cleanup_voices(&mut self, silent: &Vec<bool>) -> (freed: Vec<usize>)
        requires
            old(self).wf(),
            silent@.len() == old(self)@.slots.len(),
        ensures
            final(self).wf(),
            final(self)@.slots.len() == old(self)@.slots.len(),
            forall|i: int| 0 <= i < old(self)@.slots.len() ==> #[trigger] final(self)@.slots[i] == if frees(
                old(self)@.slots[i],
                silent@[i],
            ) {
                freed_slot(old(self)@.slots[i])
            } else {
                old(self)@.slots[i]
            },
            lists_indices(freed@, old(self)@.slots.len() as int, |i: int| frees(old(self)@.slots[i], silent@[i])),
            // every sounding slot with a silent voice is freed and listed, whatever its state
            forall|i: int| 0 <= i < old(self)@.slots.len() && old(self)@.slots[i].state != VoiceState::Free
                && old(self)@.slots[i].has_voice && silent@[i] ==> {
                &&& #[trigger] final(self)@.slots[i]
                    == VoiceSlot { state: VoiceState::Free, has_voice: false, ..old(self)@.slots[i] }
                &&& freed@.contains(i as usize)
            },
            forall|i: int| 0 <= i < old(self)@.slots.len() && !(old(self)@.slots[i].state != VoiceState::Free
                && old(self)@.slots[i].has_voice && silent@[i]) ==> {
                &&& #[trigger] final(self)@.slots[i] == old(self)@.slots[i]
                &&& !freed@.contains(i as usize)
            },
            final(self)@.age_counter == old(self)@.age_counter,
            final(self)@.sustain_held == old(self)@.sustain_held,
            final(self)@.mlp_enabled == old(self)@.mlp_enabled,
            final(self)@.nan_guard_fires == old(self)@.nan_guard_fires,
    {
        let ghost old_slots = self.voices@;
        let ghost p = |i: int| frees(old_slots[i], silent@[i]);
        let mut freed: Vec<usize> = Vec::new();
        let mut i: usize = 0;
        while i < self.voices.len()
            invariant
                self.voices@.len() == old_slots.len(),
                old_slots == old(self).voices@,
                silent@.len() == old_slots.len(),
                self.age_counter == old(self).age_counter,
                self.sustain_held == old(self).sustain_held,
                self.mlp_enabled == old(self).mlp_enabled,
                self.nan_guard_fires == old(self).nan_guard_fires,
                p == (|i: int| frees(old_slots[i], silent@[i])),
                i <= old_slots.len(),
                forall|j: int| 0 <= j < i ==> #[trigger] self.voices@[j] == if p(j) {
                    freed_slot(old_slots[j])
                } else {
                    old_slots[j]
                },
                forall|j: int| i <= j < old_slots.len() ==> #[trigger] self.voices@[j] == old_slots[j],
                forall|a: int, b: int| 0 <= a < b < freed@.len() ==> freed@[a] < freed@[b],
                forall|a: int| 0 <= a < freed@.len() ==> freed@[a] < i && p(freed@[a] as int),
                forall|j: int| 0 <= j < i && #[trigger] p(j) ==> freed@.contains(j as usize),
            decreases old_slots.len() - i,
        {
            let slot = self.voices[i];
            if slot.state != VoiceState::Free && slot.has_voice && silent[i] {
                self.voices[i] = VoiceSlot { state: VoiceState::Free, has_voice: false, ..slot };
                let ghost before = freed@;
                freed.push(i);
                proof {
                    assert forall|j: int| 0 <= j < i && #[trigger] p(j) implies freed@.contains(j as usize) by {
                        let w = choose|w: int| 0 <= w < before.len() && before[w] == j as usize;
                        assert(freed@[w] == j as usize);
                    }
                    assert(freed@[freed@.len() - 1] == i);
                }
            }
            i += 1;
        }
        proof {
            let n = self.voices@;
            let ac = self.age_counter;
            assert forall|i: int| 0 <= i < n.len() implies #[trigger] slot_ok(n[i], ac) by {
                assert(slot_ok(old_slots[i], ac));
            }
            assert forall|i: int, j: int|
                0 <= i < n.len() && 0 <= j < n.len() && i != j
                    && n[i].state != VoiceState::Free && n[j].state != VoiceState::Free
                implies #[trigger] n[i].age != #[trigger] n[j].age by {
                assert(old_slots[i].age != old_slots[j].age);
            }
            lemma_cleanup_frees_silent_voices(old_slots, silent@, n, freed@);
        }
        freed
    }
}

impl WurliEngine {
    /// The slot at index `i`.
    pub fn slot(&self, i: usize) -> (s: VoiceSlot)
        requires
            i < self@.slots.len(),
        ensures
            s == self@.slots[i as int],
    {
        self.voices[i]
    }

    /// Whether the render pass visits slot `i`: it sounds, or its stolen
    /// voice is still fading out.
    pub fn slot_is_rendered(&self, i: usize) -> (r: bool)
        requires
            i < self@.slots.len(),
        ensures
            r == !(self@.slots[i as int].state == VoiceState::Free && !self@.slots[i as int].has_steal_voice),
    {
        let s = self.voices[i];
        !(s.state == VoiceState::Free && !s.has_steal_voice)
    }

    /// Samples left of the stolen-voice fade of slot `i`, `offset` samples
    /// into the block (zero once the fade is over). The gain of the stolen
    /// voice at that sample is this count over the fade length.
    pub fn steal_fade_remaining(&self, i: usize, offset: u32) -> (r: u32)
        requires
            i < self@.slots.len(),
        ensures
            r == if self@.slots[i as int].steal_fade >= offset {
                (self@.slots[i as int].steal_fade - offset) as u32
            } else {
                0u32
            },
    {
        self.voices[i].steal_fade.saturating_sub(offset)
    }

    /// Advances the stolen-voice fade of slot `i` by a block of `len`
    /// samples. Returns whether the fade ended now, and the host drops the
    /// stolen voice then.
    pub fn advance_steal_fade(&mut self, i: usize, len: u32) -> (ended: bool)
        requires
            old(self).wf(),
            i < old(self)@.slots.len(),
        ensures
            final(self).wf(),
            final(self)@.slots == old(self)@.slots.update(i as int, faded_slot(old(self)@.slots[i as int], len)),
            ended == (old(self)@.slots[i as int].has_steal_voice && !final(self)@.slots[i as int].has_steal_voice),
            // the fade loses `len` samples (down to zero) and ends exactly when it runs out
            old(self)@.slots[i as int].has_steal_voice ==> {
                &&& final(self)@.slots[i as int].steal_fade as int == if old(self)@.slots[i as int].steal_fade
                    >= len { old(self)@.slots[i as int].steal_fade - len } else { 0 }
                &&& ended == (old(self)@.slots[i as int].steal_fade <= len)
                &&& final(self)@.slots[i as int].state == old(self)@.slots[i as int].state
                &&& final(self)@.slots[i as int].has_voice == old(self)@.slots[i as int].has_voice
            },
            !old(self)@.slots[i as int].has_steal_voice ==> !ended && final(self)@.slots == old(self)@.slots,
            final(self)@.age_counter == old(self)@.age_counter,
            final(self)@.sustain_held == old(self)@.sustain_held,
            final(self)@.mlp_enabled == old(self)@.mlp_enabled,
            final(self)@.nan_guard_fires == old(self)@.nan_guard_fires,
    {
        let slot = self.voices[i];
        if !slot.has_steal_voice {
            return false;
        }
        let left = slot.steal_fade.saturating_sub(len);
        self.voices[i] = VoiceSlot { steal_fade: left, has_steal_voice: left != 0, ..slot };
        proof {
            lemma_steal_fade_counts_down(slot, len);
            assert(slot_ok(old(self)@.slots[i as int], self.age_counter));
            lemma_same_shape_ok(old(self)@.slots, self.age_counter, i as int, self.voices@[i as int]);
        }
        left == 0
    }

    /// Counts one firing of the guard that silences a block with
    /// non-finite samples.
    pub fn note_nan_guard_fired(&mut self)
        requires
            old(self)@.nan_guard_fires < u64::MAX,
        ensures
            final(self)@.nan_guard_fires == old(self)@.nan_guard_fires + 1,
            final(self)@.slots == old(self)@.slots,
            final(self)@.age_counter == old(self)@.age_counter,
            final(self)@.sustain_held == old(self)@.sustain_held,
            final(self)@.mlp_enabled == old(self)@.mlp_enabled,
    {
        self.nan_guard_fires = self.nan_guard_fires + 1;
    }

    /// Frees slot `i` at once, without a release ramp, after its voice
    /// produced non-finite output.
    pub fn free_faulted_voice(&mut self, i: usize)
        requires
            old(self).wf(),
            i < old(self)@.slots.len(),
        ensures
            final(self).wf(),
            final(self)@.slots == old(self)@.slots.update(i as int, freed_slot(old(self)@.slots[i as int])),
            final(self)@.slots[i as int]
                == (VoiceSlot { state: VoiceState::Free, has_voice: false, ..old(self)@.slots[i as int] }),
            final(self)@.age_counter == old(self)@.age_counter,
            final(self)@.sustain_held == old(self)@.sustain_held,
            final(self)@.mlp_enabled == old(self)@.mlp_enabled,
            final(self)@.nan_guard_fires == old(self)@.nan_guard_fires,
    {
        let slot = self.voices[i];
        self.voices[i] = VoiceSlot { state: VoiceState::Free, has_voice: false, ..slot };
        proof {
            lemma_faulted_voice_freed(slot);
            assert(slot_ok(old(self)@.slots[i as int], self.age_counter));
            lemma_same_shape_ok(old(self)@.slots, self.age_counter, i as int, self.voices@[i as int]);
        }
    }

    /// Drops the stolen voice of slot `i` after it produced non-finite output.
    pub fn drop_faulted_steal_voice(&mut self, i: usize)
        requires
            old(self).wf(),
            i < old(self)@.slots.len(),
        ensures
            final(self).wf(),
            final(self)@.slots == old(self)@.slots.update(
                i as int,
                VoiceSlot { has_steal_voice: false, steal_fade: 0, ..old(self)@.slots[i as int] },
            ),
            final(self)@.age_counter == old(self)@.age_counter,
            final(self)@.sustain_held == old(self)@.sustain_held,
            final(self)@.mlp_enabled == old(self)@.mlp_enabled,
            final(self)@.nan_guard_fires == old(self)@.nan_guard_fires,
    {
        let slot = self.voices[i];
        self.voices[i] = VoiceSlot { has_steal_voice: false, steal_fade: 0, ..slot };
        proof {
            assert(slot_ok(old(self)@.slots[i as int], self.age_counter));
            lemma_same_shape_ok(old(self)@.slots, self.age_counter, i as int, self.voices@[i as int]);
        }
    }

    /// Number of times the NaN guard has zeroed a block since construction
    /// or the last `reset_nan_guard_count()`.
    pub fn nan_guard_fires(&self) -> (n: u64)
        ensures
            n == self@.nan_guard_fires,
    {
        self.nan_guard_fires
    }

    /// Resets the NaN-guard fire counter to zero.
    pub fn reset_nan_guard_count(&mut self)
        ensures
            final(self)@.nan_guard_fires == 0,
            final(self)@.slots == old(self)@.slots,
            final(self)@.age_counter == old(self)@.age_counter,
            final(self)@.sustain_held == old(self)@.sustain_held,
            final(self)@.mlp_enabled == old(self)@.mlp_enabled,
    {
        self.nan_guard_fires = 0;
    }

    /// Whether new voices apply the learned per-note corrections.
    pub fn set_mlp_enabled(&mut self, on: bool)
        ensures
            final(self)@.mlp_enabled == on,
            final(self)@.slots == old(self)@.slots,
            final(self)@.age_counter == old(self)@.age_counter,
            final(self)@.sustain_held == old(self)@.sustain_held,
            final(self)@.nan_guard_fires == old(self)@.nan_guard_fires,
    {
        self.mlp_enabled = on;
    }

    /// Number of notes struck since construction or the last reset; the age
    /// of the newest voice.
    pub fn age_counter(&self) -> (n: u64)
        ensures
            n == self@.age_counter,
    {
        self.age_counter
    }

    /// Whether the sustain pedal is down.
    pub fn is_sustain_held(&self) -> (b: bool)
        ensures
            b == self@.sustain_held,
    {
        self.sustain_held
    }

    /// Forces the pedal state without the damping of a pedal release.
    pub fn force_sustain_held(&mut self, held: bool)
        ensures
            final(self)@.sustain_held == held,
            final(self)@.slots == old(self)@.slots,
            final(self)@.age_counter == old(self)@.age_counter,
            final(self)@.mlp_enabled == old(self)@.mlp_enabled,
            final(self)@.nan_guard_fires == old(self)@.nan_guard_fires,
    {
        self.sustain_held = held;
    }

    /// Whether some slot of `note` still fades out a stolen voice.
    pub fn has_steal_voice_for(&self, note: u8) -> (b: bool)
        ensures
            b == exists|i: int| 0 <= i < self@.slots.len() && #[trigger] self@.slots[i].midi_note == note
                && self@.slots[i].has_steal_voice,
    {
        let mut i: usize = 0;
        while i < self.voices.len()
            invariant
                i <= self.voices@.len(),
                forall|j: int| 0 <= j < i ==> !(#[trigger] self.voices@[j].midi_note == note
                    && self.voices@[j].has_steal_voice),
            decreases self.voices@.len() - i,
        {
            let s = self.voices[i];
            if s.midi_note == note && s.has_steal_voice {
                return true;
            }
            i += 1;
        }
        false
    }
}

/// Seed of the attack-noise and jitter generators of a voice:
/// `note * 2654435761 + age`, modulo `2^32`.
pub open spec fn spec_noise_seed(note: u8, age: u64) -> u32 {
    ((note as int * 2654435761 + age as int) % 0x1_0000_0000) as u32
}

/// Seed of the attack-noise and jitter generators of the voice that `note`
/// starts as the `age`-th note.
pub fn noise_seed(note: u8, age: u64) -> (seed: u32)
    ensures
        seed == spec_noise_seed(note, age),
{
    proof {
        lemma_noise_seed(note, age);
    }
    (note as u32).wrapping_mul(2654435761).wrapping_add(age as u32)
}

/// The noise seed computed with wrapping `u32` arithmetic is `spec_noise_seed`.
proof fn lemma_noise_seed(note: u8, age: u64)
    ensures
        vstd::wrapping::u32_specs::wrapping_add(
            vstd::wrapping::u32_specs::wrapping_mul(note as u32, 2654435761u32),
            age as u32,
        ) == spec_noise_seed(note, age),
{
    let m = vstd::wrapping::u32_specs::wrapping_mul(note as u32, 2654435761u32);
    assert(m == (note as nat * 2654435761nat) % 0x1_0000_0000nat);
    assert((age as u32) as int == age as int % 0x1_0000_0000) by (bit_vector);
    vstd::arithmetic::div_mod::lemma_add_mod_noop(note as int * 2654435761, age as int, 0x1_0000_0000);
}

} // verus!
