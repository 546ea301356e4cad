//! Sequencer track: converts incoming clock pulses into note-on and
//! note-off decisions for its own pattern.
//!
//! A track owns one [`Pattern`] plus per-track playback settings: an
//! enabled flag, a delay offset in pulses, and the engine-supplied
//! swing offset. It holds at most one outstanding pending note-off at
//! any time (monophonic-per-track note lifetime), and a finite queue
//! of events awaiting emission.

use vstd::prelude::*;

use crate::event::TrackEvent;
use crate::pattern::{pattern_step_at, pattern_wf, Pattern, PatternModel};
use crate::step::{Pitch, Step};
use crate::{BARS, GATE_PULSES, MAX_DELAY, PPQ, PULSES_PER_STEP, STEPS_PER_BAR};

verus! {

/// A note-off waiting to be emitted once its target pulse is reached.
#[derive(Debug, Clone, Copy, PartialEq, Eq, Structural)]
pub struct PendingOff {
    /// Pulse at which the note-off becomes due.
    pub target: i64,

    /// Bar of the note it closes.
    pub bar: u32,

    /// Step of the note it closes.
    pub step: u32,

    /// Pitch of the note it closes.
    pub pitch: Pitch,
}

/// Mathematical model of a [`Track`].
#[verifier::ext_equal]
pub ghost struct TrackModel {
    /// The track's pattern.
    pub pattern: PatternModel,

    /// Whether the track emits events at all.
    pub enabled: bool,

    /// Per-track delay in pulses.
    pub delay: int,

    /// Engine-supplied swing offset in pulses, applied to odd
    /// sixteenth-note positions only.
    pub swing: int,

    /// The at most one outstanding note-off.
    pub pending: Option<PendingOff>,

    /// Events awaiting emission, in emission order.
    pub queue: Seq<TrackEvent>,
}

/// Pulses between two step boundaries, as a mathematical integer.
pub open spec fn step_len() -> int {
    PULSES_PER_STEP as int
}

/// The pulse at which step count `k` (sixteenth notes since song
/// start) fires, for a track with the given delay and swing offset:
/// the step's base pulse, plus the swing offset on odd (off-beat)
/// positions only, plus the track's delay.
pub open spec fn firing_pulse(k: int, delay: int, swing: int) -> int {
    k * step_len() + (if k % 2 == 1 { swing } else { 0 }) + delay
}

/// The step count (if any) whose firing pulse is exactly `p`; the
/// inverse of [`firing_pulse`]. Even step counts fire on the plain
/// sixteenth grid shifted by the delay; odd step counts fire a swing
/// offset later.
pub open spec fn fired_step_index(p: int, delay: int, swing: int) -> Option<int> {
    let e = p - delay;
    if e >= 0 && e % step_len() == 0 && (e / step_len()) % 2 == 0 {
        Some(e / step_len())
    } else if e - swing >= 0 && (e - swing) % step_len() == 0 && ((e - swing) / step_len()) % 2
        == 1 {
        Some((e - swing) / step_len())
    } else {
        None
    }
}

/// The note-off event a pending entry emits.
pub open spec fn off_event(po: PendingOff) -> TrackEvent {
    TrackEvent::NoteOff { bar: po.bar, step: po.step, pitch: po.pitch }
}

/// Whether an enabled step of the track fires at pulse `p`.
pub open spec fn track_fires(m: TrackModel, p: int) -> bool {
    match fired_step_index(p, m.delay, m.swing) {
        Some(k) => pattern_step_at(m.pattern, k).enabled,
        None => false,
    }
}

/// How one clock pulse transforms a track.
///
/// A disabled track is left untouched. Otherwise, a pending note-off
/// that is due (its target pulse reached) or displaced by a new note-on
/// is enqueued first — off before on at the same instant — and then, if
/// the step firing at `p` is enabled, a note-on carrying that step's
/// pitch and velocity is enqueued and the matching note-off is
/// registered [`GATE_PULSES`] pulses later.
pub open spec fn track_clock_model(m: TrackModel, p: int) -> TrackModel {
    if !m.enabled {
        m
    } else {
        let fires = track_fires(m, p);
        let emit_off = m.pending matches Some(po) && (po.target <= p || fires);
        let q1 = if emit_off {
            m.queue.push(off_event(m.pending->0))
        } else {
            m.queue
        };
        if fires {
            let k = fired_step_index(p, m.delay, m.swing)->0;
            let st = pattern_step_at(m.pattern, k);
            let pos = k % m.pattern.length_steps;
            let bar = (pos / STEPS_PER_BAR as int) as u32;
            let stp = (pos % STEPS_PER_BAR as int) as u32;
            TrackModel {
                queue: q1.push(
                    TrackEvent::NoteOn { bar, step: stp, pitch: st.pitch, vel: st.velocity },
                ),
                pending: Some(
                    PendingOff {
                        target: (p + GATE_PULSES as int) as i64,
                        bar,
                        step: stp,
                        pitch: st.pitch,
                    },
                ),
                ..m
            }
        } else {
            TrackModel {
                queue: q1,
                pending: if emit_off {
                    None
                } else {
                    m.pending
                },
                ..m
            }
        }
    }
}

/// How a flush transforms a track: a pending note-off, if any, is
/// enqueued for immediate emission and cleared.
pub open spec fn track_flush_model(m: TrackModel) -> TrackModel {
    match m.pending {
        Some(po) => TrackModel { queue: m.queue.push(off_event(po)), pending: None, ..m },
        None => m,
    }
}

/// Queued events alternate between note-ons and note-offs: no two
/// adjacent events are of the same kind.
pub open spec fn queue_alternates(q: Seq<TrackEvent>) -> bool {
    forall|i: int|
        0 <= i && i + 1 < q.len() ==> (((#[trigger] q[i]) is NoteOn) <==> (q[i + 1] is NoteOff))
}

/// Coupling of the queue with the pending slot: while the queue is not
/// empty, its last event is a note-on exactly when a note-off is still
/// outstanding — and that outstanding note-off matches it, closing the
/// same bar, step and pitch.
pub open spec fn queue_wf(m: TrackModel) -> bool {
    &&& queue_alternates(m.queue)
    &&& m.queue.len() > 0 ==> ((m.queue.last() is NoteOn) <==> (m.pending is Some))
    &&& m.queue.len() > 0 ==> (m.pending matches Some(po) ==> (m.queue.last() matches
    TrackEvent::NoteOn { bar, step, pitch, .. } && bar == po.bar && step == po.step && pitch
        == po.pitch))
}

/// Well-formedness of a track model: a well-formed pattern, delay and
/// swing within their pulse budgets, and a well-formed queue.
pub open spec fn track_wf(m: TrackModel) -> bool {
    &&& pattern_wf(m.pattern)
    &&& -(MAX_DELAY as int) <= m.delay <= MAX_DELAY as int
    &&& 0 <= m.swing <= MAX_DELAY as int
    &&& queue_wf(m)
}

/// A delay request clamped to the legal range of `[-MAX_DELAY, MAX_DELAY]`.
pub open spec fn clamped_delay(delay: int) -> int {
    if delay < -(MAX_DELAY as int) {
        -(MAX_DELAY as int)
    } else if delay > MAX_DELAY as int {
        MAX_DELAY as int
    } else {
        delay
    }
}

/// A swing offset clamped to the legal range of `[0, MAX_DELAY]`.
pub open spec fn clamped_swing(swing: int) -> int {
    if swing > MAX_DELAY as int {
        MAX_DELAY as int
    } else {
        swing
    }
}

/// The state of a freshly created track: enabled, no delay, no swing,
/// nothing scheduled, and a blank one-bar pattern.
pub open spec fn fresh_track(m: TrackModel) -> bool {
    &&& m.enabled
    &&& m.delay == 0
    &&& m.swing == 0
    &&& m.pending is None
    &&& m.queue == Seq::<TrackEvent>::empty()
    &&& m.pattern.length_steps == STEPS_PER_BAR as int
    &&& forall|b: int, s: int|
        0 <= b < BARS && 0 <= s < STEPS_PER_BAR ==> #[trigger] m.pattern.bars[b][s]
            == crate::pattern::blank_step()
}

/// Sequencer track.
#[derive(Debug)]
pub struct Track {
    /// The track's pattern.
    pattern: Pattern,

    /// Whether the track emits events at all.
    enabled: bool,

    /// Per-track delay in pulses.
    delay: i32,

    /// Engine-supplied swing offset in pulses.
    swing: u32,

    /// The at most one outstanding note-off.
    pending: Option<PendingOff>,

    /// Events awaiting emission, in emission order.
    events: Vec<TrackEvent>,
}

impl View for Track {
    type V = TrackModel;

    closed spec fn view(&self) -> TrackModel {
        TrackModel {
            pattern: self.pattern@,
            enabled: self.enabled,
            delay: self.delay as int,
            swing: self.swing as int,
            pending: self.pending,
            queue: self.events@,
        }
    }
}

impl Track {
    /// A track is well formed when its model is.
    pub open spec fn wf(&self) -> bool {
        track_wf(self@)
    }

    /// Returns a new, enabled track with a blank one-bar pattern, no
    /// delay, no swing, and nothing scheduled.
    pub fn new() -> (r: Track)
        ensures
            r.wf(),
            fresh_track(r@),
    {
        Track {
            pattern: Pattern::new(),
            enabled: true,
            delay: 0,
            swing: 0,
            pending: None,
            events: Vec::new(),
        }
    }

    /// The step count (if any) that fires at pulse `p` for this track's
    /// delay and swing.
    fn fired_step(&self, p: i64) -> (r: Option<u64>)
        requires
            self.wf(),
            i32::MIN <= p <= i32::MAX,
        ensures
            match r {
                Some(k) => fired_step_index(p as int, self@.delay, self@.swing) == Some(k as int),
                None => fired_step_index(p as int, self@.delay, self@.swing) is None,
            },
    {
        let e: i64 = p - (self.delay as i64);
        if e >= 0 {
            let eu = e as u64;
            if eu % (PULSES_PER_STEP as u64) == 0 {
                let k = eu / (PULSES_PER_STEP as u64);
                if k % 2 == 0 {
                    return Some(k);
                }
            }
        }
        let e2: i64 = p - (self.delay as i64) - (self.swing as i64);
        if e2 >= 0 {
            let e2u = e2 as u64;
            if e2u % (PULSES_PER_STEP as u64) == 0 {
                let k = e2u / (PULSES_PER_STEP as u64);
                if k % 2 == 1 {
                    return Some(k);
                }
            }
        }
        None
    }

    /// Processes one clock pulse, as [`track_clock_model`] describes.
    pub fn clock(&mut self, pulse_no: i32)
        requires
            old(self).wf(),
        ensures
            final(self).wf(),
            final(self)@ == track_clock_model(old(self)@, pulse_no as int),
    {
        if !self.enabled {
            return;
        }
        let p: i64 = pulse_no as i64;

        // Which step, if any, fires at this pulse, and is it enabled?
        let fired = self.fired_step(p);
        let firing: Option<(u32, u32, Step)> = match fired {
            Some(k) => {
                let ls = self.pattern.length_steps() as u64;
                let pos = k % ls;
                let bar = (pos / (STEPS_PER_BAR as u64)) as u32;
                let s = (pos % (STEPS_PER_BAR as u64)) as u32;
                proof {
                    assert(pos < ls);
                    assert(ls as int <= BARS as int * STEPS_PER_BAR as int);
                    vstd::arithmetic::div_mod::lemma_multiply_divide_lt(
                        pos as int,
                        BARS as int,
                        STEPS_PER_BAR as int,
                    );
                    assert(bar < BARS);
                }
                let st = self.pattern.step_at(bar, s);
                if st.enabled {
                    Some((bar, s, st))
                } else {
                    None
                }
            },
            None => None,
        };

        // A due or displaced note-off goes out first.
        match self.pending {
            Some(po) => {
                if po.target <= p || firing.is_some() {
                    self.events.push(
                        TrackEvent::NoteOff { bar: po.bar, step: po.step, pitch: po.pitch },
                    );
                    self.pending = None;
                }
            },
            None => {},
        }

        // Then the new note-on, with its note-off registered a gate
        // length later.
        match firing {
            Some((bar, s, st)) => {
                self.events.push(
                    TrackEvent::NoteOn { bar, step: s, pitch: st.pitch, vel: st.velocity },
                );
                self.pending = Some(
                    PendingOff { target: p + (GATE_PULSES as i64), bar, step: s, pitch: st.pitch },
                );
            },
            None => {},
        }

        proof {
            lemma_clock_preserves_wf(old(self)@, pulse_no as int);
            assert(self@ =~= track_clock_model(old(self)@, pulse_no as int));
        }
    }

    /// Returns the next pending event in emission order, or `None` when
    /// the queue is empty.
    pub fn next_event(&mut self) -> (r: Option<TrackEvent>)
        requires
            old(self).wf(),
        ensures
            final(self).wf(),
            old(self)@.queue.len() == 0 ==> r is None && final(self)@ == old(self)@,
            old(self)@.queue.len() > 0 ==> r == Some(old(self)@.queue[0]) && final(self)@ == (
            TrackModel { queue: old(self)@.queue.drop_first(), ..old(self)@ }),
    {
        if self.events.len() == 0 {
            None
        } else {
            let ev = self.events.remove(0);
            proof {
                assert(self@.queue =~= old(self)@.queue.drop_first());
            }
            Some(ev)
        }
    }

    /// Schedules a pending note-off, if any, for immediate emission, as
    /// [`track_flush_model`] describes. Used when the transport stops,
    /// so no note is left sounding indefinitely.
    pub fn flush(&mut self)
        requires
            old(self).wf(),
        ensures
            final(self).wf(),
            final(self)@ == track_flush_model(old(self)@),
    {
        match self.pending {
            Some(po) => {
                self.events.push(
                    TrackEvent::NoteOff { bar: po.bar, step: po.step, pitch: po.pitch },
                );
                self.pending = None;
            },
            None => {},
        }
    }

    /// Enables the track for playing.
    pub fn enable(&mut self)
        ensures
            final(self)@ == (TrackModel { enabled: true, ..old(self)@ }),
            old(self).wf() ==> final(self).wf(),
    {
        self.enabled = true;
    }

    /// Disables the track: a disabled track never emits events.
    pub fn disable(&mut self)
        ensures
            final(self)@ == (TrackModel { enabled: false, ..old(self)@ }),
            old(self).wf() ==> final(self).wf(),
    {
        self.enabled = false;
    }

    /// Sets the enabled flag.
    pub fn set_enabled(&mut self, enabled: bool)
        ensures
            final(self)@ == (TrackModel { enabled, ..old(self)@ }),
            old(self).wf() ==> final(self).wf(),
    {
        self.enabled = enabled;
    }

    /// Returns if the track is enabled.
    pub fn enabled(&self) -> (r: bool)
        ensures
            r == self@.enabled,
    {
        self.enabled
    }

    /// Sets the track's delay in pulses, clamped to
    /// `[-MAX_DELAY, MAX_DELAY]`.
    pub fn set_delay(&mut self, delay: i32)
        ensures
            final(self)@ == (TrackModel { delay: clamped_delay(delay as int), ..old(self)@ }),
            old(self).wf() ==> final(self).wf(),
    {
        let clamped = if delay < -(MAX_DELAY as i32) {
            -(MAX_DELAY as i32)
        } else if delay > MAX_DELAY as i32 {
            MAX_DELAY as i32
        } else {
            delay
        };
        self.delay = clamped;
    }

    /// Returns the track's delay in pulses.
    pub fn delay(&self) -> (r: i32)
        ensures
            r == self@.delay,
    {
        self.delay
    }

    /// Sets the engine-supplied swing offset in pulses, clamped to
    /// `[0, MAX_DELAY]`.
    pub fn set_swing(&mut self, swing: u32)
        ensures
            final(self)@ == (TrackModel { swing: clamped_swing(swing as int), ..old(self)@ }),
            old(self).wf() ==> final(self).wf(),
    {
        let clamped = if swing > MAX_DELAY {
            MAX_DELAY
        } else {
            swing
        };
        self.swing = clamped;
    }

    /// Returns the swing offset in pulses.
    pub fn swing(&self) -> (r: u32)
        ensures
            r == self@.swing,
    {
        self.swing
    }

    /// Returns a mutable reference to the track's pattern.
    pub fn pattern(&mut self) -> (r: &mut Pattern)
        ensures
            r@ == old(self)@.pattern,
            final(self)@ == (TrackModel { pattern: final(r)@, ..old(self)@ }),
            old(self).wf() && final(r).wf() ==> final(self).wf(),
    {
        &mut self.pattern
    }
}

impl Default for Track {
    /// Returns a new track, as [`Track::new`] does.
    fn default() -> (r: Track)
        ensures
            r.wf(),
            fresh_track(r@),
    {
        Track::new()
    }
}

/// One clock pulse keeps a track well formed; in particular the queue
/// keeps alternating between note-ons and note-offs, so no note-on is
/// ever enqueued while its predecessor's note-off is still unemitted.
pub proof fn lemma_clock_preserves_wf(m: TrackModel, p: int)
    requires
        track_wf(m),
    ensures
        track_wf(track_clock_model(m, p)),
{
    let m1 = track_clock_model(m, p);
    if m.enabled {
        assert forall|i: int| 0 <= i && i + 1 < m1.queue.len() implies (((#[trigger] m1.queue[i])
            is NoteOn) <==> (m1.queue[i + 1] is NoteOff)) by {
            if i + 1 < m.queue.len() {
                assert(m.queue[i] == m1.queue[i]);
                assert(m.queue[i + 1] == m1.queue[i + 1]);
            }
        }
    }
}

/// A track fires step count `k` exactly at its firing pulse: feeding
/// [`firing_pulse`]`(k, delay, swing)` back through
/// [`fired_step_index`] recovers `k`. Together with
/// [`lemma_fired_step_unique`] this pins the firing pulse of every
/// step: shifted by the track delay alone on even (on-beat) steps, and
/// additionally by the swing offset on odd (off-beat) steps.
pub proof fn lemma_firing_pulse_fired(k: int, delay: int, swing: int)
    requires
        k >= 0,
        0 <= swing < step_len(),
    ensures
        fired_step_index(firing_pulse(k, delay, swing), delay, swing) == Some(k),
{
    let e = firing_pulse(k, delay, swing) - delay;
    if k % 2 == 0 {
        assert(e == k * step_len() + 0);
        vstd::arithmetic::div_mod::lemma_fundamental_div_mod_converse(e, step_len(), k, 0);
    } else {
        assert(e == k * step_len() + swing);
        vstd::arithmetic::div_mod::lemma_fundamental_div_mod_converse(e, step_len(), k, swing);
        assert(e - swing == k * step_len() + 0);
        vstd::arithmetic::div_mod::lemma_fundamental_div_mod_converse(
            e - swing,
            step_len(),
            k,
            0,
        );
    }
}

/// At most one step count fires at any pulse: whenever
/// [`fired_step_index`] answers `Some(k)`, the pulse is exactly that
/// step's firing pulse, so distinct step counts fire at distinct
/// pulses.
pub proof fn lemma_fired_step_unique(p: int, delay: int, swing: int, k: int)
    requires
        0 <= swing < step_len(),
        fired_step_index(p, delay, swing) == Some(k),
    ensures
        k >= 0,
        p == firing_pulse(k, delay, swing),
{
    let e = p - delay;
    if e >= 0 && e % step_len() == 0 && (e / step_len()) % 2 == 0 {
        vstd::arithmetic::div_mod::lemma_fundamental_div_mod(e, step_len());
        vstd::arithmetic::div_mod::lemma_div_pos_is_pos(e, step_len());
    } else {
        vstd::arithmetic::div_mod::lemma_fundamental_div_mod(e - swing, step_len());
        vstd::arithmetic::div_mod::lemma_div_pos_is_pos(e - swing, step_len());
    }
}

/// Which bar of the song a given step count falls in.
pub open spec fn bar_of_step(k: int) -> int {
    k / STEPS_PER_BAR as int
}

/// Pulse/step equivalence on the plain grid (no delay, no swing): a
/// step boundary falls exactly every `PPQ / 4` pulses, four
/// consecutive steps span exactly one quarter note of `PPQ` pulses,
/// and sixteen consecutive steps span exactly one bar.
pub proof fn lemma_pulse_step_equivalence(k: int)
    requires
        k >= 0,
    ensures
        firing_pulse(k, 0, 0) == k * (PPQ as int / 4),
        firing_pulse(k + 1, 0, 0) - firing_pulse(k, 0, 0) == PPQ as int / 4,
        firing_pulse(k + 4, 0, 0) - firing_pulse(k, 0, 0) == PPQ as int,
        bar_of_step(k + STEPS_PER_BAR as int) == bar_of_step(k) + 1,
{
    let d = STEPS_PER_BAR as int;
    vstd::arithmetic::div_mod::lemma_fundamental_div_mod(k, d);
    vstd::arithmetic::div_mod::lemma_fundamental_div_mod_converse(
        k + d,
        d,
        k / d + 1,
        k % d,
    );
}

/// No overlapping notes per track: between any two note-ons in a
/// track's queue stands a note-off, so the note-off closing an earlier
/// note-on is always drained before the next note-on of the same
/// track. (That a track never holds two outstanding note-offs at once
/// is structural: the pending slot holds at most one.)
pub proof fn lemma_no_overlapping_notes(m: TrackModel, i: int, j: int)
    requires
        track_wf(m),
        0 <= i < j < m.queue.len(),
        m.queue[i] is NoteOn,
        m.queue[j] is NoteOn,
    ensures
        m.queue[i + 1] is NoteOff,
        i + 1 < j,
{
    assert(m.queue[i] is NoteOn && i + 1 < m.queue.len());
}

/// Flush correctness: flushing a track with a pending note-off clears
/// the pending slot and appends exactly that note-off to the queue, so
/// draining the queue in emission order yields it before `next_event`
/// first answers `None`.
pub proof fn lemma_flush_emits_pending_off(m: TrackModel)
    requires
        m.pending is Some,
    ensures
        track_flush_model(m).pending is None,
        track_flush_model(m).queue == m.queue.push(off_event(m.pending->0)),
        track_flush_model(m).queue.last() == off_event(m.pending->0),
        track_flush_model(m).queue.len() == m.queue.len() + 1,
{
}

/// A disabled track is inert: a clock pulse leaves it untouched, so a
/// disabled track with an empty queue never has an event to emit.
pub proof fn lemma_disabled_track_inert(m: TrackModel, p: int)
    requires
        !m.enabled,
    ensures
        track_clock_model(m, p) == m,
{
}

/// A gate of half a step never outlasts its step: a note-off scheduled
/// [`GATE_PULSES`] after its note-on is due at or before the next
/// step's firing pulse, for every legal swing offset — so the off of
/// one note is emitted no later than the on of the next.
pub proof fn lemma_gate_never_outlasts_a_step(k: int, delay: int, swing: int)
    requires
        k >= 0,
        0 <= swing <= MAX_DELAY as int,
    ensures
        firing_pulse(k, delay, swing) + GATE_PULSES as int <= firing_pulse(k + 1, delay, swing),
{
    assert((k + 1) * step_len() == k * step_len() + step_len()) by (nonlinear_arith);
    assert((k + 1) % 2 == if k % 2 == 1 { 0int } else { 1int }) by (nonlinear_arith);
}

/// Swing only ever delays: an even (on-beat) step fires on its base
/// pulse shifted by the track delay alone, an odd (off-beat) step
/// fires exactly the swing offset later, and no step ever fires
/// earlier than it would without swing.
pub proof fn lemma_swing_delays_offbeats(k: int, delay: int, swing: int)
    requires
        k >= 0,
        0 <= swing,
    ensures
        k % 2 == 1 ==> firing_pulse(k, delay, swing) == k * step_len() + delay + swing,
        k % 2 == 0 ==> firing_pulse(k, delay, swing) == k * step_len() + delay,
        firing_pulse(k, delay, swing) >= firing_pulse(k, delay, 0),
{
}

} // verus!
