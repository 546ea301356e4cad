//! Events emitted by tracks and by the engine.

use vstd::prelude::*;

use crate::step::{Pitch, Velocity};

verus! {

/// Event produced by a single track.
#[derive(Debug, Clone, Copy, PartialEq, Eq, Structural)]
#[non_exhaustive]
pub enum TrackEvent {
    /// Start a note with pitch and velocity.
    NoteOn { bar: u32, step: u32, pitch: Pitch, vel: Velocity },

    /// Stop a note with pitch.
    NoteOff { bar: u32, step: u32, pitch: Pitch },
}

/// Engine event: a track event tagged with its track number.
#[derive(Debug, Clone, Copy, PartialEq, Eq, Structural)]
pub struct EngineEvent(pub u32, pub TrackEvent);

} // verus!
