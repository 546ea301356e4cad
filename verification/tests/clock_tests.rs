//! Tests of the clock generator.

use dr_seq::clock::{Clock, CLOCK_SCALE, DUR_LIMIT, POS_LIMIT};

/// Scaled duration for a whole number of samples per pulse.
fn samples(n: u64) -> u64 {
    n * CLOCK_SCALE
}

/// Drains a clock, returning all (pulse, offset) pairs.
fn drain(clock: &mut Clock) -> Vec<(i64, u32)> {
    let mut out = Vec::new();
    while let Some(item) = clock.next() {
        out.push(item);
        assert!(out.len() <= 100000, "clock did not end");
    }
    out
}

#[test]
fn clock_yields_whole_pulses_from_zero() {
    // position 0, two samples per pulse, ten-sample buffer
    let mut clock = Clock::new(10, true, Some(0), Some(samples(2)));
    let got = drain(&mut clock);
    assert_eq!(got, vec![(0, 0), (1, 2), (2, 4), (3, 6), (4, 8)]);
}

#[test]
fn clock_skips_partial_pulse_before_block() {
    // position half a pulse in: the first whole pulse is pulse 1, one
    // sample away at two samples per pulse
    let mut clock = Clock::new(10, true, Some((CLOCK_SCALE / 2) as i64), Some(samples(2)));
    let got = drain(&mut clock);
    assert_eq!(got, vec![(1, 1), (2, 3), (3, 5), (4, 7), (5, 9)]);
}

#[test]
fn clock_includes_pulse_exactly_on_boundary() {
    // position exactly on pulse 3
    let mut clock = Clock::new(4, true, Some(3 * CLOCK_SCALE as i64), Some(samples(2)));
    let got = drain(&mut clock);
    assert_eq!(got, vec![(3, 0), (4, 2)]);
}

#[test]
fn clock_handles_negative_positions() {
    // two and a half pulses before the song start, one sample per pulse
    let pos = -(5 * CLOCK_SCALE as i64) / 2;
    let mut clock = Clock::new(4, true, Some(pos), Some(samples(1)));
    let got = drain(&mut clock);
    // ceil(-2.5) == -2, half a pulse (half a sample) away, rounded up
    assert_eq!(got, vec![(-2, 1), (-1, 2), (0, 3)]);
}

#[test]
fn clock_monotonic_with_fractional_duration() {
    // 3.7 samples per pulse, position 0.3 pulses, big buffer
    let dur = 3 * CLOCK_SCALE + 7 * CLOCK_SCALE / 10;
    let pos = (3 * CLOCK_SCALE / 10) as i64;
    let mut clock = Clock::new(256, true, Some(pos), Some(dur));
    let got = drain(&mut clock);
    assert!(got.len() > 60);
    assert_eq!(got[0].0, 1);
    for w in got.windows(2) {
        assert_eq!(w[1].0, w[0].0 + 1, "pulse numbers increase by one");
        assert!(w[1].1 >= w[0].1, "offsets never decrease");
    }
    for item in &got {
        assert!(item.1 < 256, "offsets stay inside the buffer");
    }
}

#[test]
fn clock_silent_when_stopped() {
    let mut clock = Clock::new(512, false, Some(0), Some(samples(2)));
    assert_eq!(clock.next(), None);
    assert_eq!(clock.next(), None);
}

#[test]
fn clock_silent_without_position() {
    let mut clock = Clock::new(512, true, None, Some(samples(2)));
    assert_eq!(clock.next(), None);
}

#[test]
fn clock_silent_without_tempo() {
    let mut clock = Clock::new(512, true, Some(0), None);
    assert_eq!(clock.next(), None);
}

#[test]
fn clock_silent_on_empty_buffer() {
    let mut clock = Clock::new(0, true, Some(0), Some(samples(2)));
    assert_eq!(clock.next(), None);
}

#[test]
fn clock_clamps_tiny_duration_to_one_sample() {
    // a zero duration is raised to one sample per pulse
    let mut clock = Clock::new(3, true, Some(0), Some(0));
    let got = drain(&mut clock);
    assert_eq!(got, vec![(0, 0), (1, 1), (2, 2)]);
}

#[test]
fn clock_clamps_extreme_position() {
    let mut clock = Clock::new(4, true, Some(i64::MAX), Some(DUR_LIMIT));
    // the clamped position is a whole number of pulses
    let got = drain(&mut clock);
    assert_eq!(got.len(), 1);
    assert_eq!(got[0], (POS_LIMIT / CLOCK_SCALE as i64, 0));
}
