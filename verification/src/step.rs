//! Sequencer step: the smallest schedulable unit.

use vstd::prelude::*;

verus! {

/// Pitch options of a step.
#[derive(Debug, Clone, Copy, PartialEq, Eq, Structural)]
#[non_exhaustive]
pub enum Pitch {
    /// Default setting: the note number is derived from the track index.
    Default,

    /// Individual note number.
    Custom(i32),
}

/// Velocity options of a step.
#[derive(Debug, Clone, Copy, PartialEq, Eq, Structural)]
#[non_exhaustive]
pub enum Velocity {
    /// Normal velocity.
    Default,

    /// Accented step.
    Strong,

    /// Quiet step.
    Weak,

    /// Individual setting.
    Custom(i32),
}

/// Sequencer step: an enabled flag plus pitch and velocity choices.
///
/// A disabled step never produces events, regardless of its pitch and
/// velocity contents.
#[derive(Debug, Clone, Copy, PartialEq, Eq, Structural)]
pub struct Step {
    /// Flag if the step is enabled for playing.
    pub enabled: bool,

    /// Pitch of the step.
    pub pitch: Pitch,

    /// Velocity of the step.
    pub velocity: Velocity,
}

impl Step {
    /// Returns a new, disabled step with the given pitch and velocity.
    pub fn new(pitch: Pitch, velocity: Velocity) -> (r: Step)
        ensures
            r == (Step { enabled: false, pitch, velocity }),
    {
        Step { enabled: false, pitch, velocity }
    }

    /// Enables the step.
    pub fn enable(&mut self)
        ensures
            *final(self) == (Step { enabled: true, ..*old(self) }),
    {
        self.enabled = true;
    }

    /// Disables the step.
    pub fn disable(&mut self)
        ensures
            *final(self) == (Step { enabled: false, ..*old(self) }),
    {
        self.enabled = false;
    }

    /// Returns if the step is enabled.
    pub fn enabled(&self) -> (r: bool)
        ensures
            r == self.enabled,
    {
        self.enabled
    }

    /// Sets the pitch of the step.
    pub fn set_pitch(&mut self, pitch: Pitch)
        ensures
            *final(self) == (Step { pitch, ..*old(self) }),
    {
        self.pitch = pitch;
    }

    /// Returns the pitch of the step.
    pub fn pitch(&self) -> (r: Pitch)
        ensures
            r == self.pitch,
    {
        self.pitch
    }

    /// Sets the velocity of the step.
    pub fn set_velocity(&mut self, vel: Velocity)
        ensures
            *final(self) == (Step { velocity: vel, ..*old(self) }),
    {
        self.velocity = vel;
    }

    /// Returns the velocity of the step.
    pub fn velocity(&self) -> (r: Velocity)
        ensures
            r == self.velocity,
    {
        self.velocity
    }
}

impl Default for Step {
    /// Returns a disabled step with default pitch and velocity.
    fn default() -> (r: Step)
        ensures
            r == (Step { enabled: false, pitch: Pitch::Default, velocity: Velocity::Default }),
    {
        Step { enabled: false, pitch: Pitch::Default, velocity: Velocity::Default }
    }
}

} // verus!
