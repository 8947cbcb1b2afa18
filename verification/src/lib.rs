//! OpenWurli voice-management and control logic for a Wurlitzer 200A
//! electric-piano engine, verified with Verus.
//!
//! The library holds the decisions of the engine: which voice slot a note
//! takes, when a voice is damped, stolen or freed, how the host buffer is cut
//! into render blocks around MIDI events, and the integer generators behind
//! the per-note variation and noise. The sample-level signal chain is
//! floating point and lives outside the library.

pub mod tables;
pub mod engine;
pub mod slot_table;
pub mod voice_laws;
pub mod settle;
pub mod variation;
pub mod noise;
pub mod plugin;
pub mod pickup;
pub mod blocks;
pub mod reed;
pub mod smoother;
