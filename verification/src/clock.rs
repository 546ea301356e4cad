//! Clock generator: maps the host's transport position to the discrete
//! musical pulses that land inside the current audio block, each paired
//! with its exact intra-block sample offset.
//!
//! The clock works on fixed-point values scaled by [`CLOCK_SCALE`]: the
//! song position in pulses and the duration of one pulse in samples.
//! The host-integration layer derives both from the transport snapshot
//! (`position_in_beats * PPQ`, and `60 / (tempo_bpm * PPQ) *
//! sample_rate`) and passes `None` where the host supplied no position
//! or tempo; the clock then yields nothing, because timing cannot be
//! established. A clock is created fresh for one audio block, pulled
//! until it ends, and discarded.

use vstd::prelude::*;

use vstd::arithmetic::div_mod::{
    lemma_div_is_ordered, lemma_fundamental_div_mod, lemma_fundamental_div_mod_converse_div,
    lemma_mod_division_less_than_divisor,
};
use vstd::arithmetic::mul::{lemma_mul_is_distributive_add_other_way, lemma_mul_upper_bound};

verus! {

/// Fixed-point scale of the clock's inputs: positions and durations are
/// measured in units of `1 / CLOCK_SCALE` pulses and samples.
pub const CLOCK_SCALE: u64 = 1048576;

/// Largest magnitude of a scaled song position the clock works with; a
/// constructor argument beyond it is clamped.
pub const POS_LIMIT: i64 = 0x80_0000_0000_0000;

/// Largest scaled pulse duration the clock works with. A constructor
/// argument is clamped into `[CLOCK_SCALE, DUR_LIMIT]`: a pulse lasts
/// at least one sample and at most `DUR_LIMIT / CLOCK_SCALE` samples.
pub const DUR_LIMIT: u64 = 0x80_0000_0000_0000;

/// The fixed-point scale as a mathematical integer.
pub open spec fn scale() -> int {
    CLOCK_SCALE as int
}

/// Ceiling division of `a` by a positive `b`.
pub open spec fn ceil_div(a: int, b: int) -> int {
    -((-a) / b)
}

/// The first whole pulse at or after scaled position `pos`: a pulse
/// starting exactly at the position is included, a partial pulse before
/// it is skipped.
pub open spec fn next_pulse(pos: int) -> int {
    ceil_div(pos, scale())
}

/// The sample offset of the `count`-th pulse produced for a block whose
/// scaled position is `pos` and whose scaled pulse duration is `dur`:
/// the distance from the position to the next whole pulse, plus `count`
/// further pulses, converted to samples and rounded half-up.
pub open spec fn pulse_offset(pos: int, dur: int, count: int) -> int {
    let frac = next_pulse(pos) * scale() - pos;
    ((frac + count * scale()) * dur + scale() * scale() / 2) / (scale() * scale())
}

/// Mathematical model of a [`Clock`].
#[verifier::ext_equal]
pub ghost struct ClockModel {
    /// Scaled position in the song in pulses, if the host supplied one.
    pub pos_pulses: Option<int>,

    /// Scaled duration of a pulse in samples, if the host supplied a
    /// tempo.
    pub pulse_duration: Option<int>,

    /// Buffer length in samples.
    pub buffer_length: int,

    /// How many pulses were already produced for this block.
    pub count: int,

    /// Flag if the transport is playing.
    pub playing: bool,
}

/// What one pull of the clock yields: `None` for a stopped transport,
/// missing timing data, or a next pulse that falls outside the buffer;
/// otherwise the pulse number and its sample offset.
pub open spec fn clock_output(m: ClockModel) -> Option<(int, int)> {
    if !m.playing {
        None
    } else {
        match (m.pos_pulses, m.pulse_duration) {
            (Some(pos), Some(dur)) => {
                let off = pulse_offset(pos, dur, m.count);
                if off < m.buffer_length {
                    Some((next_pulse(pos), off))
                } else {
                    None
                }
            },
            _ => None,
        }
    }
}

/// How one pull advances the clock: after a yield the position moves
/// one whole pulse forward and the count grows; an ended clock stays
/// put.
pub open spec fn clock_step_model(m: ClockModel) -> ClockModel {
    if clock_output(m) is Some {
        ClockModel {
            pos_pulses: Some(m.pos_pulses->0 + scale()),
            count: m.count + 1,
            ..m
        }
    } else {
        m
    }
}

/// The pulse number of a yielding clock state.
pub open spec fn output_pulse(m: ClockModel) -> int {
    (clock_output(m)->0).0
}

/// The sample offset of a yielding clock state.
pub open spec fn output_offset(m: ClockModel) -> int {
    (clock_output(m)->0).1
}

/// Well-formedness of a clock model: bounds that keep the fixed-point
/// arithmetic exact. The position bound widens as the position advances
/// with the count; the count never passes the buffer length because a
/// pulse lasts at least one sample.
pub open spec fn clock_wf(m: ClockModel) -> bool {
    &&& 0 <= m.buffer_length <= u32::MAX
    &&& 0 <= m.count <= m.buffer_length
    &&& (m.pulse_duration matches Some(d) ==> scale() <= d <= DUR_LIMIT as int)
    &&& (m.pos_pulses matches Some(pos) ==> -(POS_LIMIT as int) <= pos <= POS_LIMIT as int
        + m.count * scale())
}

/// A scaled position clamped into `[-POS_LIMIT, POS_LIMIT]`.
pub open spec fn clamped_pos(pos: int) -> int {
    if pos < -(POS_LIMIT as int) {
        -(POS_LIMIT as int)
    } else if pos > POS_LIMIT as int {
        POS_LIMIT as int
    } else {
        pos
    }
}

/// A scaled pulse duration clamped into `[CLOCK_SCALE, DUR_LIMIT]`.
pub open spec fn clamped_dur(dur: int) -> int {
    if dur < scale() {
        scale()
    } else if dur > DUR_LIMIT as int {
        DUR_LIMIT as int
    } else {
        dur
    }
}

/// Clock generator for one audio block.
#[derive(Debug)]
pub struct Clock {
    /// Scaled position in the song in pulses.
    pos_pulses: Option<i64>,

    /// Scaled duration of a pulse in samples.
    pulse_duration: Option<u64>,

    /// Buffer length in samples.
    buffer_length: u32,

    /// Iteration count.
    count: u32,

    /// Flag if the transport is playing.
    playing: bool,
}

impl View for Clock {
    type V = ClockModel;

    closed spec fn view(&self) -> ClockModel {
        ClockModel {
            pos_pulses: match self.pos_pulses {
                Some(p) => Some(p as int),
                None => None,
            },
            pulse_duration: match self.pulse_duration {
                Some(d) => Some(d as int),
                None => None,
            },
            buffer_length: self.buffer_length as int,
            count: self.count as int,
            playing: self.playing,
        }
    }
}

impl Clock {
    /// A clock is well formed when its model is.
    pub open spec fn wf(&self) -> bool {
        clock_wf(self@)
    }

    /// Returns a new clock for one audio block.
    /// - `buffer_length`: the block's length in samples.
    /// - `playing`: flag if the transport is playing.
    /// - `pos_pulses`: scaled song position in pulses, if the host
    ///   supplied a position; clamped into `[-POS_LIMIT, POS_LIMIT]`.
    /// - `pulse_duration`: scaled duration of a pulse in samples, if the
    ///   host supplied a tempo; clamped into `[CLOCK_SCALE, DUR_LIMIT]`.
    pub fn new(
        buffer_length: u32,
        playing: bool,
        pos_pulses: Option<i64>,
        pulse_duration: Option<u64>,
    ) -> (r: Clock)
        ensures
            r.wf(),
            r@.playing == playing,
            r@.buffer_length == buffer_length,
            r@.count == 0,
            r@.pos_pulses == match pos_pulses {
                Some(p) => Some(clamped_pos(p as int)),
                None => None::<int>,
            },
            r@.pulse_duration == match pulse_duration {
                Some(d) => Some(clamped_dur(d as int)),
                None => None::<int>,
            },
    {
        let pos = match pos_pulses {
            Some(p) => Some(
                if p < -POS_LIMIT {
                    -POS_LIMIT
                } else if p > POS_LIMIT {
                    POS_LIMIT
                } else {
                    p
                },
            ),
            None => None,
        };
        let dur = match pulse_duration {
            Some(d) => Some(
                if d < CLOCK_SCALE {
                    CLOCK_SCALE
                } else if d > DUR_LIMIT {
                    DUR_LIMIT
                } else {
                    d
                },
            ),
            None => None,
        };
        Clock { pos_pulses: pos, pulse_duration: dur, buffer_length, count: 0, playing }
    }

    /// Produces the next pulse of the block, or `None` once the block
    /// holds no further pulse, as [`clock_output`] and
    /// [`clock_step_model`] describe: the pulse number of the first
    /// whole pulse at or after the current position, and its sample
    /// offset, strictly less than the buffer length.
    pub fn next(&mut self) -> (r: Option<(i64, u32)>)
        requires
            old(self).wf(),
        ensures
            final(self).wf(),
            final(self)@ == clock_step_model(old(self)@),
            match r {
                Some(t) => clock_output(old(self)@) == Some((t.0 as int, t.1 as int)),
                None => clock_output(old(self)@) is None,
            },
    {
        if !self.playing {
            return None;
        }
        let (pos, dur) = match (self.pos_pulses, self.pulse_duration) {
            (Some(p), Some(d)) => (p, d),
            _ => {
                return None;
            },
        };

        // The first whole pulse at or after the position.
        let pulse: i64 = if pos >= 0 {
            proof {
                lemma_ceil_div_nonneg(pos as int, scale());
            }
            (((pos as u64) + (CLOCK_SCALE - 1)) / CLOCK_SCALE) as i64
        } else {
            -((((-pos) as u64) / CLOCK_SCALE) as i64)
        };
        proof {
            lemma_ceil_div_fundamental(pos as int, scale());
            assert(pulse == next_pulse(pos as int));
        }

        // Distance to that pulse in scaled pulse units, then the sample
        // offset of the `count`-th pulse, rounded half-up.
        let frac: u64 = ((pulse * (CLOCK_SCALE as i64)) - pos) as u64;
        proof {
            assert(frac < CLOCK_SCALE);
            lemma_mul_upper_bound(
                frac as int + (self.count as int) * scale(),
                0x20_0000_0000_0000,
                dur as int,
                DUR_LIMIT as int,
            );
        }
        let num: u128 = ((frac as u128) + (self.count as u128) * (CLOCK_SCALE as u128)) * (
        dur as u128) + ((CLOCK_SCALE as u128) * (CLOCK_SCALE as u128)) / 2;
        let off128: u128 = num / ((CLOCK_SCALE as u128) * (CLOCK_SCALE as u128));
        proof {
            assert(off128 as int == pulse_offset(pos as int, dur as int, self.count as int));
        }

        if off128 < (self.buffer_length as u128) {
            proof {
                lemma_pulse_offset_at_least_count(pos as int, dur as int, self.count as int);
            }
            let off: u32 = off128 as u32;
            self.pos_pulses = Some(pos + (CLOCK_SCALE as i64));
            self.count = self.count + 1;
            proof {
                lemma_mul_is_distributive_add_other_way(scale(), old(self)@.count, 1);
                assert(self@ =~= clock_step_model(old(self)@));
            }
            Some((pulse, off))
        } else {
            None
        }
    }
}

/// `ceil_div` rounds up to the next multiple: that multiple lies within
/// one divisor above the dividend.
pub proof fn lemma_ceil_div_fundamental(a: int, b: int)
    requires
        b > 0,
    ensures
        0 <= ceil_div(a, b) * b - a < b,
{
    lemma_fundamental_div_mod(-a, b);
    lemma_mod_division_less_than_divisor(-a, b);
    let q = (-a) / b;
    let r = (-a) % b;
    assert(ceil_div(a, b) * b == (-q) * b);
    assert((-q) * b == -(q * b)) by (nonlinear_arith);
    assert(b * q == q * b) by (nonlinear_arith);
}

/// Whatever lands its multiple within one divisor above the dividend is
/// the ceiling.
pub proof fn lemma_ceil_div_unique(a: int, b: int, c: int)
    requires
        b > 0,
        0 <= c * b - a < b,
    ensures
        c == ceil_div(a, b),
{
    assert(-a == (-c) * b + (c * b - a)) by (nonlinear_arith);
    lemma_fundamental_div_mod_converse_div(-a, b, -c, c * b - a);
}

/// For a non-negative dividend the ceiling division is the usual
/// rounded-up quotient.
pub proof fn lemma_ceil_div_nonneg(a: int, b: int)
    requires
        a >= 0,
        b > 0,
    ensures
        ceil_div(a, b) == (a + b - 1) / b,
{
    let q = (a + b - 1) / b;
    lemma_fundamental_div_mod(a + b - 1, b);
    lemma_mod_division_less_than_divisor(a + b - 1, b);
    assert(b * q == q * b) by (nonlinear_arith);
    lemma_ceil_div_unique(a, b, q);
}

/// With a pulse lasting at least one sample, the `count`-th pulse of a
/// block lands at least `count` samples in — so a block of `n` samples
/// never yields more than `n` pulses.
pub proof fn lemma_pulse_offset_at_least_count(pos: int, dur: int, count: int)
    requires
        dur >= scale(),
        count >= 0,
    ensures
        pulse_offset(pos, dur, count) >= count,
{
    let s = scale();
    let frac = next_pulse(pos) * s - pos;
    lemma_ceil_div_fundamental(pos, s);
    let num = (frac + count * s) * dur + s * s / 2;
    assert((frac + count * s) * dur >= (count * s) * s) by (nonlinear_arith)
        requires
            frac >= 0,
            dur >= s,
            s > 0,
            count >= 0,
    ;
    assert((count * s) * s == count * (s * s)) by (nonlinear_arith);
    assert(count * (s * s) / (s * s) == count) by {
        lemma_fundamental_div_mod_converse_div(count * (s * s), s * s, count, 0);
    }
    lemma_div_is_ordered(count * (s * s), num, s * s);
}

/// Advancing the clock by one pulse moves the next pulse number up by
/// exactly one and never moves the sample offset down.
pub proof fn lemma_pulse_offset_monotonic(pos: int, dur: int, count: int)
    requires
        dur >= 0,
        count >= 0,
    ensures
        next_pulse(pos + scale()) == next_pulse(pos) + 1,
        pulse_offset(pos, dur, count) <= pulse_offset(pos + scale(), dur, count + 1),
{
    let s = scale();
    let c = ceil_div(pos, s);
    lemma_ceil_div_fundamental(pos, s);
    assert((c + 1) * s == c * s + s) by (nonlinear_arith);
    lemma_ceil_div_unique(pos + s, s, c + 1);

    let frac = c * s - pos;
    let num1 = (frac + count * s) * dur + s * s / 2;
    let num2 = (frac + (count + 1) * s) * dur + s * s / 2;
    assert((frac + (count + 1) * s) * dur == (frac + count * s) * dur + s * dur)
        by (nonlinear_arith);
    assert(s * dur >= 0) by (nonlinear_arith)
        requires
            s > 0,
            dur >= 0,
    ;
    lemma_div_is_ordered(num1, num2, s * s);
}

/// One pull keeps a clock well formed.
pub proof fn lemma_clock_step_wf(m: ClockModel)
    requires
        clock_wf(m),
    ensures
        clock_wf(clock_step_model(m)),
{
    if clock_output(m) is Some {
        let pos = m.pos_pulses->0;
        let dur = m.pulse_duration->0;
        lemma_pulse_offset_at_least_count(pos, dur, m.count);
        lemma_mul_is_distributive_add_other_way(scale(), m.count, 1);
    }
}

/// How the clock looks after `n` pulls.
pub open spec fn clock_iterated(m: ClockModel, n: nat) -> ClockModel
    decreases n,
{
    if n == 0 {
        m
    } else {
        clock_step_model(clock_iterated(m, (n - 1) as nat))
    }
}

/// Pulling a clock any number of times keeps it well formed.
pub proof fn lemma_clock_iterated_wf(m: ClockModel, n: nat)
    requires
        clock_wf(m),
    ensures
        clock_wf(clock_iterated(m, n)),
    decreases n,
{
    if n > 0 {
        lemma_clock_iterated_wf(m, (n - 1) as nat);
        lemma_clock_step_wf(clock_iterated(m, (n - 1) as nat));
    }
}

/// If one pull of a clock yields, the pull before it yielded too, one
/// pulse earlier and not later in the buffer.
pub proof fn lemma_clock_step_monotonic(m: ClockModel)
    requires
        clock_wf(m),
        clock_output(clock_step_model(m)) is Some,
    ensures
        clock_output(m) is Some,
        output_pulse(clock_step_model(m)) == output_pulse(m) + 1,
        output_offset(clock_step_model(m)) >= output_offset(m),
{
    if clock_output(m) is None {
        assert(clock_step_model(m) == m);
    } else {
        let pos = m.pos_pulses->0;
        let dur = m.pulse_duration->0;
        lemma_pulse_offset_monotonic(pos, dur, m.count);
    }
}

/// Clock monotonicity: along any run of the clock, every earlier pull
/// yields too, pulse numbers strictly increase — by exactly one per
/// pull — and sample offsets never decrease, staying below the buffer
/// length.
pub proof fn lemma_clock_monotonic(m: ClockModel, n1: nat, n2: nat)
    requires
        clock_wf(m),
        n1 <= n2,
        clock_output(clock_iterated(m, n2)) is Some,
    ensures
        clock_output(clock_iterated(m, n1)) is Some,
        output_pulse(clock_iterated(m, n2)) == output_pulse(clock_iterated(m, n1)) + n2 - n1,
        output_offset(clock_iterated(m, n1)) <= output_offset(clock_iterated(m, n2)),
        output_offset(clock_iterated(m, n2)) < m.buffer_length,
    decreases n2 - n1,
{
    assert(clock_iterated(m, n2).buffer_length == m.buffer_length) by {
        lemma_clock_iterated_buffer(m, n2);
    }
    if n1 < n2 {
        lemma_clock_iterated_wf(m, (n2 - 1) as nat);
        assert(clock_iterated(m, n2) == clock_step_model(clock_iterated(m, (n2 - 1) as nat)));
        lemma_clock_step_monotonic(clock_iterated(m, (n2 - 1) as nat));
        lemma_clock_monotonic(m, n1, (n2 - 1) as nat);
    }
}

/// Pulling never changes the buffer length.
pub proof fn lemma_clock_iterated_buffer(m: ClockModel, n: nat)
    ensures
        clock_iterated(m, n).buffer_length == m.buffer_length,
        clock_iterated(m, n).playing == m.playing,
        clock_iterated(m, n).pulse_duration == m.pulse_duration,
    decreases n,
{
    if n > 0 {
        lemma_clock_iterated_buffer(m, (n - 1) as nat);
    }
}

/// Clock silence: a stopped transport, a missing position, or a missing
/// tempo yields no pulses, whatever the other inputs — now and after
/// any number of pulls.
pub proof fn lemma_clock_silence(m: ClockModel, n: nat)
    requires
        !m.playing || m.pos_pulses is None || m.pulse_duration is None,
    ensures
        clock_output(clock_iterated(m, n)) is None,
    decreases n,
{
    if n > 0 {
        lemma_clock_silence(m, (n - 1) as nat);
    }
}

} // verus!
