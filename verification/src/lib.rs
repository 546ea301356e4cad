//! Timing and event-generation core of a grid-based step sequencer.
//!
//! The library maps host transport time to discrete musical pulses
//! ([`clock::Clock`]) and feeds those pulses to a multi-track
//! step-sequencing engine ([`engine::Engine`]) that emits ordered
//! note-on/note-off events, honouring per-track delay, global swing,
//! and deferred note-offs across buffer boundaries and transport stops.
//!
//! The host-integration layer (plugin wrapper, editor, MIDI plumbing)
//! lives outside this crate; it supplies plain values per audio block
//! and consumes the events the engine produces.

use vstd::prelude::*;

pub mod clock;
pub mod engine;
pub mod event;
pub mod pattern;
pub mod step;
pub mod track;

verus! {

/// Total number of tracks. The last track is reserved for the global accent.
pub const TRACKS: usize = 9;

/// Index of the reserved accent track.
pub const ACCENT_TRACK: usize = TRACKS - 1;

/// Number of bars per pattern.
pub const BARS: usize = 1;

/// Number of steps inside a bar (sixteenth notes of a 4/4 bar).
pub const STEPS_PER_BAR: usize = 16;

/// Clock resolution in pulses per quarter note.
pub const PPQ: u32 = 384;

/// Pulses between two step boundaries (a sixteenth note).
pub const PULSES_PER_STEP: u32 = PPQ / 4;

/// Largest magnitude of a per-track delay, and of the swing offset,
/// in pulses (an eighth of a quarter note).
pub const MAX_DELAY: u32 = PPQ / 8;

/// Gate length in pulses: how long after a note-on the matching
/// note-off is scheduled. Fixed at half a step, which keeps a note's
/// off strictly before (or exactly at) the next possible note-on of
/// the same track for every legal swing offset.
pub const GATE_PULSES: u32 = PPQ / 8;

} // verus!
