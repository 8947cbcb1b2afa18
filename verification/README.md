# openwurli_dsp

Voice management and control logic of a Wurlitzer 200A electric-piano
engine, written in Verus and proved against its contracts.

`src/` is the verified library:

- `engine` — the voice manager: twelve voice slots, allocation and voice
  stealing (free slot, then oldest releasing, oldest sustained, oldest held
  voice), key release, sustain pedal, reset, the stolen-voice crossfade,
  cleanup of silent voices and the NaN guard's bookkeeping. Each transition
  returns what the host must do to its sounding voices.
- `slot_table` — the mathematical model of the slot table the contracts
  speak of; `voice_laws` — laws of the voice manager.
- `plugin` — how a host buffer is cut into render blocks around its MIDI
  events.
- `variation`, `noise` — the integer hash behind per-note detuning and
  amplitude variation, the linear congruential generator behind the noise,
  and the countdown of an attack-noise burst.
- `reed` — the reed oscillator's jitter and renormalization schedule and its
  damper choices by register.
- `pickup` — the scaling law of the pickup's high-pass corner.
- `smoother` — the sample clock of the parameter smoothers.
- `settle`, `blocks`, `tables` — settling a solver on silence, cutting long
  renders into blocks, the keyboard range.

`app/` holds the host-side glue in plain Rust: it carries out the voice
manager's decisions on floating-point voices and turns the integer
generators into floating-point offsets and noise.
