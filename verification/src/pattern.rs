//! Sequencer pattern: bars of steps plus a playback length.

use vstd::prelude::*;

use crate::step::{Pitch, Step, Velocity};
use crate::{BARS, STEPS_PER_BAR};

verus! {

/// The step a fresh pattern cell holds: disabled, with default pitch
/// and velocity.
pub open spec fn blank_step() -> Step {
    Step { enabled: false, pitch: Pitch::Default, velocity: Velocity::Default }
}

/// One bar: a fixed-size ordered sequence of [`STEPS_PER_BAR`] steps,
/// index 0..16 mapping onto the sixteenth-note positions of the bar.
#[derive(Debug, Clone)]
pub struct Bar {
    /// The steps of the bar; always exactly [`STEPS_PER_BAR`] of them.
    steps: Vec<Step>,
}

impl View for Bar {
    type V = Seq<Step>;

    closed spec fn view(&self) -> Seq<Step> {
        self.steps@
    }
}

impl Bar {
    /// A bar is well formed when it holds exactly [`STEPS_PER_BAR`] steps.
    pub open spec fn wf(&self) -> bool {
        self@.len() == STEPS_PER_BAR
    }

    /// Returns a new bar of blank steps.
    pub fn new() -> (r: Bar)
        ensures
            r.wf(),
            r@ == Seq::new(STEPS_PER_BAR as nat, |i: int| blank_step()),
    {
        let mut steps: Vec<Step> = Vec::new();
        let mut i: usize = 0;
        while i < STEPS_PER_BAR
            invariant
                i <= STEPS_PER_BAR,
                steps@ == Seq::new(i as nat, |j: int| blank_step()),
            decreases STEPS_PER_BAR - i,
        {
            steps.push(Step::new(Pitch::Default, Velocity::Default));
            i = i + 1;
            proof {
                assert(steps@ =~= Seq::new(i as nat, |j: int| blank_step()));
            }
        }
        Bar { steps }
    }

    /// Returns a mutable reference to the steps.
    pub fn steps(&mut self) -> (r: &mut Vec<Step>)
        ensures
            r@ == old(self)@,
            final(self)@ == final(r)@,
    {
        &mut self.steps
    }

    /// Returns a mutable reference to a specific step.
    pub fn step(&mut self, step_no: u32) -> (r: &mut Step)
        requires
            step_no < STEPS_PER_BAR,
            old(self).wf(),
        ensures
            *r == old(self)@[step_no as int],
            final(self)@ == old(self)@.update(step_no as int, *final(r)),
            final(self).wf(),
    {
        &mut self.steps[step_no as usize]
    }
}

impl Default for Bar {
    /// Returns a new bar of blank steps.
    fn default() -> (r: Bar)
        ensures
            r.wf(),
            r@ == Seq::new(STEPS_PER_BAR as nat, |i: int| blank_step()),
    {
        Bar::new()
    }
}

/// Mathematical model of a [`Pattern`]: the steps of every bar, plus
/// the playback length in steps.
#[verifier::ext_equal]
pub ghost struct PatternModel {
    /// One sequence of steps per bar.
    pub bars: Seq<Seq<Step>>,

    /// How many steps are played before the pattern loops.
    pub length_steps: int,
}

/// Well-formedness of a pattern model: the configured number of bars,
/// each of the configured size, and a playback length that is positive
/// and within the pattern.
pub open spec fn pattern_wf(m: PatternModel) -> bool {
    &&& m.bars.len() == BARS
    &&& forall|b: int| 0 <= b < BARS ==> (#[trigger] m.bars[b]).len() == STEPS_PER_BAR
    &&& 1 <= m.length_steps <= BARS * STEPS_PER_BAR
}

/// The step that plays at step count `k` (number of sixteenth notes
/// since the song start): playback wraps modulo the pattern length.
pub open spec fn pattern_step_at(m: PatternModel, k: int) -> Step
    recommends
        pattern_wf(m),
        k >= 0,
{
    let pos = k % m.length_steps;
    m.bars[pos / STEPS_PER_BAR as int][pos % STEPS_PER_BAR as int]
}

/// Sequencer pattern with [`BARS`] bars.
#[derive(Debug, Clone)]
pub struct Pattern {
    /// The bars of the pattern; always exactly [`BARS`] of them.
    bars: Vec<Bar>,

    /// Length in steps.
    length_steps: u32,
}

impl View for Pattern {
    type V = PatternModel;

    closed spec fn view(&self) -> PatternModel {
        PatternModel {
            bars: self.bars@.map_values(|b: Bar| b@),
            length_steps: self.length_steps as int,
        }
    }
}

impl Pattern {
    /// A pattern is well formed when its model is.
    pub open spec fn wf(&self) -> bool {
        pattern_wf(self@)
    }

    /// Returns a new pattern of blank steps, one bar long.
    pub fn new() -> (r: Pattern)
        ensures
            r.wf(),
            r@.length_steps == STEPS_PER_BAR,
            forall|b: int, s: int|
                0 <= b < BARS && 0 <= s < STEPS_PER_BAR ==> #[trigger] r@.bars[b][s] == blank_step(),
    {
        let mut bars: Vec<Bar> = Vec::new();
        let mut i: usize = 0;
        while i < BARS
            invariant
                i <= BARS,
                bars@.len() == i,
                forall|b: int|
                    0 <= b < i ==> (#[trigger] bars@[b])@ == Seq::new(
                        STEPS_PER_BAR as nat,
                        |j: int| blank_step(),
                    ),
            decreases BARS - i,
        {
            bars.push(Bar::new());
            i = i + 1;
        }
        Pattern { bars, length_steps: STEPS_PER_BAR as u32 }
    }

    /// Returns the length in bars.
    pub fn length_bars(&self) -> (r: u32)
        ensures
            r == self@.length_steps / STEPS_PER_BAR as int,
    {
        self.length_steps / STEPS_PER_BAR as u32
    }

    /// Sets the length to the given number of bars, clamped to the
    /// pattern's capacity (at least one bar, at most [`BARS`]).
    pub fn set_length_bars(&mut self, bars: u32)
        ensures
            final(self)@ == (PatternModel {
                length_steps: clamped_bars(bars as int) * STEPS_PER_BAR as int,
                ..old(self)@
            }),
            old(self).wf() ==> final(self).wf(),
    {
        let clamped = if bars < 1 {
            1
        } else if bars > BARS as u32 {
            BARS as u32
        } else {
            bars
        };
        self.length_steps = clamped * (STEPS_PER_BAR as u32);
    }

    /// Returns the length in steps.
    pub fn length_steps(&self) -> (r: u32)
        ensures
            r == self@.length_steps,
    {
        self.length_steps
    }

    /// Sets the length in steps, clamped to a positive value within
    /// the pattern's capacity.
    pub fn set_length_steps(&mut self, steps: u32)
        ensures
            final(self)@ == (PatternModel {
                length_steps: clamped_length(steps as int),
                ..old(self)@
            }),
            old(self).wf() ==> final(self).wf(),
    {
        let clamped = if steps < 1 {
            1
        } else if steps > (BARS * STEPS_PER_BAR) as u32 {
            (BARS * STEPS_PER_BAR) as u32
        } else {
            steps
        };
        self.length_steps = clamped;
    }

    /// Returns the step at the given bar and position.
    pub fn step_at(&self, bar_no: u32, step_no: u32) -> (r: Step)
        requires
            self.wf(),
            bar_no < BARS,
            step_no < STEPS_PER_BAR,
        ensures
            r == self@.bars[bar_no as int][step_no as int],
    {
        proof {
            assert(self@.bars[bar_no as int].len() == STEPS_PER_BAR);
        }
        self.bars[bar_no as usize].steps[step_no as usize]
    }

    /// Returns a mutable reference to a specific bar.
    pub fn bar(&mut self, bar_no: u32) -> (r: &mut Bar)
        requires
            bar_no < BARS,
            old(self).wf(),
        ensures
            r@ == old(self)@.bars[bar_no as int],
            final(self)@ == (PatternModel {
                bars: old(self)@.bars.update(bar_no as int, final(r)@),
                ..old(self)@
            }),
            final(r).wf() ==> final(self).wf(),
    {
        &mut self.bars[bar_no as usize]
    }
}

impl Default for Pattern {
    /// Returns a new pattern of blank steps, one bar long.
    fn default() -> (r: Pattern)
        ensures
            r.wf(),
            r@.length_steps == STEPS_PER_BAR,
            forall|b: int, s: int|
                0 <= b < BARS && 0 <= s < STEPS_PER_BAR ==> #[trigger] r@.bars[b][s] == blank_step(),
    {
        Pattern::new()
    }
}

/// A playback length request clamped to a positive value within the
/// pattern's capacity.
pub open spec fn clamped_length(steps: int) -> int {
    if steps < 1 {
        1
    } else if steps > BARS * STEPS_PER_BAR {
        BARS * STEPS_PER_BAR
    } else {
        steps
    }
}

/// A bar-count request clamped to at least one bar and at most [`BARS`].
pub open spec fn clamped_bars(bars: int) -> int {
    if bars < 1 {
        1
    } else if bars > BARS {
        BARS as int
    } else {
        bars
    }
}

} // verus!
