//! Tests of a single track's scheduling.

use dr_seq::event::TrackEvent;
use dr_seq::step::{Pitch, Step, Velocity};
use dr_seq::track::Track;
use dr_seq::{GATE_PULSES, MAX_DELAY, PPQ};

/// Clocks the track over `pulses` and collects each emitted event with
/// the pulse at which it was drained.
fn run(track: &mut Track, pulses: std::ops::Range<i32>) -> Vec<(i32, TrackEvent)> {
    let mut out = Vec::new();
    for p in pulses {
        track.clock(p);
        while let Some(ev) = track.next_event() {
            out.push((p, ev));
        }
    }
    out
}

fn note_ons(events: &[(i32, TrackEvent)]) -> Vec<(i32, u32, u32)> {
    let mut out = Vec::new();
    for (p, ev) in events {
        match ev {
            TrackEvent::NoteOn { bar, step, .. } => out.push((*p, *bar, *step)),
            _ => {}
        }
    }
    out
}

fn note_offs(events: &[(i32, TrackEvent)]) -> Vec<(i32, u32, u32)> {
    let mut out = Vec::new();
    for (p, ev) in events {
        match ev {
            TrackEvent::NoteOff { bar, step, .. } => out.push((*p, *bar, *step)),
            _ => {}
        }
    }
    out
}

#[test]
fn quarter_note_scenario() {
    // steps [on, off, off, off] repeating over the bar, no delay, no
    // swing: pulses 0..96 yield exactly one note-on for bar 0 step 0 at
    // pulse 0 and its note-off strictly between 0 and 96
    let mut track = Track::new();
    for s in [0, 4, 8, 12] {
        track.pattern().bar(0).step(s).enable();
    }
    let events = run(&mut track, 0..96);
    let ons = note_ons(&events);
    let offs = note_offs(&events);
    assert_eq!(ons, vec![(0, 0, 0)]);
    assert_eq!(offs.len(), 1);
    let (off_pulse, off_bar, off_step) = offs[0];
    assert!(0 < off_pulse && off_pulse < 96);
    assert_eq!((off_bar, off_step), (0, 0));
    assert_eq!(events.len(), 2);
}

#[test]
fn gate_length_is_half_a_step() {
    let mut track = Track::new();
    track.pattern().bar(0).step(0).enable();
    let events = run(&mut track, 0..96);
    let ons = note_ons(&events);
    let offs = note_offs(&events);
    assert_eq!(ons[0].0, 0);
    assert_eq!(offs[0].0 - ons[0].0, GATE_PULSES as i32);
}

#[test]
fn swing_delays_only_odd_steps() {
    // swing offset of 24 pulses: step 0 unchanged, step 1 fires at its
    // base pulse plus the offset
    let mut track = Track::new();
    track.pattern().bar(0).step(0).enable();
    track.pattern().bar(0).step(1).enable();
    track.set_swing(24);
    let events = run(&mut track, 0..200);
    let ons = note_ons(&events);
    assert_eq!(ons, vec![(0, 0, 0), (96 + 24, 0, 1)]);
}

#[test]
fn no_swing_keeps_base_pulses() {
    let mut track = Track::new();
    track.pattern().bar(0).step(0).enable();
    track.pattern().bar(0).step(1).enable();
    let events = run(&mut track, 0..200);
    let ons = note_ons(&events);
    assert_eq!(ons, vec![(0, 0, 0), (96, 0, 1)]);
}

#[test]
fn delay_shifts_every_step() {
    // a positive delay shifts the firing pulse of every step by the
    // same amount, independent of swing
    let mut track = Track::new();
    track.pattern().bar(0).step(0).enable();
    track.pattern().bar(0).step(1).enable();
    track.set_delay(10);
    let events = run(&mut track, 0..200);
    let ons = note_ons(&events);
    assert_eq!(ons, vec![(10, 0, 0), (106, 0, 1)]);
}

#[test]
fn negative_delay_fires_before_song_start() {
    let mut track = Track::new();
    track.pattern().bar(0).step(0).enable();
    track.set_delay(-(MAX_DELAY as i32));
    let events = run(&mut track, -60..60);
    let ons = note_ons(&events);
    assert_eq!(ons[0].0, -48);
}

#[test]
fn delay_and_swing_are_additive() {
    let mut track = Track::new();
    track.pattern().bar(0).step(1).enable();
    track.set_delay(7);
    track.set_swing(24);
    let events = run(&mut track, 0..200);
    let ons = note_ons(&events);
    assert_eq!(ons, vec![(96 + 24 + 7, 0, 1)]);
}

#[test]
fn delay_is_clamped_to_budget() {
    let mut track = Track::new();
    track.set_delay(1000);
    assert_eq!(track.delay(), MAX_DELAY as i32);
    track.set_delay(-1000);
    assert_eq!(track.delay(), -(MAX_DELAY as i32));
    track.set_delay(5);
    assert_eq!(track.delay(), 5);
}

#[test]
fn swing_is_clamped_to_budget() {
    let mut track = Track::new();
    track.set_swing(1000);
    assert_eq!(track.swing(), MAX_DELAY);
}

#[test]
fn disabled_track_is_silent() {
    let mut track = Track::new();
    track.pattern().bar(0).step(0).enable();
    track.disable();
    assert!(!track.enabled());
    let events = run(&mut track, 0..200);
    assert!(events.is_empty());
}

#[test]
fn disabled_step_is_silent() {
    // a disabled step never produces events, whatever its contents
    let mut track = Track::new();
    track.pattern().bar(0).step(0).set_pitch(Pitch::Custom(60));
    track.pattern().bar(0).step(0).set_velocity(Velocity::Strong);
    let events = run(&mut track, 0..200);
    assert!(events.is_empty());
}

#[test]
fn note_on_carries_step_pitch_and_velocity() {
    let mut track = Track::new();
    {
        let step = track.pattern().bar(0).step(3);
        step.set_pitch(Pitch::Custom(61));
        step.set_velocity(Velocity::Weak);
        step.enable();
    }
    let events = run(&mut track, 0..(4 * 96));
    assert_eq!(events.len(), 2);
    assert_eq!(
        events[0].1,
        TrackEvent::NoteOn { bar: 0, step: 3, pitch: Pitch::Custom(61), vel: Velocity::Weak }
    );
    assert_eq!(
        events[1].1,
        TrackEvent::NoteOff { bar: 0, step: 3, pitch: Pitch::Custom(61) }
    );
}

#[test]
fn events_alternate_on_and_off() {
    // with every step enabled, a track's events strictly alternate
    // note-on and note-off, so no two notes ever overlap
    let mut track = Track::new();
    for s in 0..16 {
        track.pattern().bar(0).step(s).enable();
    }
    let events = run(&mut track, 0..(16 * 96 + 96));
    assert!(events.len() >= 32);
    for (i, (_, ev)) in events.iter().enumerate() {
        let is_on = matches!(ev, TrackEvent::NoteOn { .. });
        assert_eq!(is_on, i % 2 == 0, "events alternate, starting with a note-on");
    }
}

#[test]
fn flush_emits_pending_note_off() {
    let mut track = Track::new();
    track.pattern().bar(0).step(0).enable();
    track.clock(0);
    assert!(matches!(track.next_event(), Some(TrackEvent::NoteOn { .. })));
    assert_eq!(track.next_event(), None);
    // the note-off is still pending; flushing emits it at once
    track.flush();
    assert_eq!(
        track.next_event(),
        Some(TrackEvent::NoteOff { bar: 0, step: 0, pitch: Pitch::Default })
    );
    assert_eq!(track.next_event(), None);
    // a second flush has nothing left to emit
    track.flush();
    assert_eq!(track.next_event(), None);
}

#[test]
fn pattern_wraps_at_its_length() {
    // a four-step pattern repeats its third step every four steps
    let mut track = Track::new();
    track.pattern().set_length_steps(4);
    track.pattern().bar(0).step(2).enable();
    let events = run(&mut track, 0..(8 * 96));
    let ons = note_ons(&events);
    assert_eq!(ons, vec![(2 * 96, 0, 2), (6 * 96, 0, 2)]);
}

#[test]
fn pattern_length_is_clamped() {
    let mut track = Track::new();
    let pattern = track.pattern();
    pattern.set_length_steps(0);
    assert_eq!(pattern.length_steps(), 1);
    pattern.set_length_steps(100);
    assert_eq!(pattern.length_steps(), 16);
    pattern.set_length_bars(0);
    assert_eq!(pattern.length_steps(), 16);
    assert_eq!(pattern.length_bars(), 1);
    pattern.set_length_bars(1);
    assert_eq!(pattern.length_steps(), 16);
}

#[test]
fn steps_are_sixteenths_of_a_quarter() {
    // four consecutive step boundaries span exactly one quarter note of
    // PPQ pulses
    let mut track = Track::new();
    for s in 0..16 {
        track.pattern().bar(0).step(s).enable();
    }
    let events = run(&mut track, 0..(PPQ as i32));
    let ons = note_ons(&events);
    assert_eq!(ons.len(), 4, "one quarter note holds four sixteenth steps");
    for w in ons.windows(2) {
        assert_eq!(w[1].0 - w[0].0, (PPQ / 4) as i32);
    }
}

#[test]
fn step_accessors_round_trip() {
    let mut step = Step::new(Pitch::Custom(42), Velocity::Custom(99));
    assert!(!step.enabled());
    assert_eq!(step.pitch(), Pitch::Custom(42));
    assert_eq!(step.velocity(), Velocity::Custom(99));
    step.enable();
    assert!(step.enabled());
    step.disable();
    assert!(!step.enabled());
    step.set_pitch(Pitch::Default);
    step.set_velocity(Velocity::Strong);
    assert_eq!(step.pitch(), Pitch::Default);
    assert_eq!(step.velocity(), Velocity::Strong);
    let blank = Step::default();
    assert!(!blank.enabled());
    assert_eq!(blank.pitch(), Pitch::Default);
    assert_eq!(blank.velocity(), Velocity::Default);
}

#[test]
fn bar_steps_accessor_exposes_all_steps() {
    let mut track = Track::new();
    let bar = track.pattern().bar(0);
    assert_eq!(bar.steps().len(), 16);
    bar.steps()[5].enable();
    assert!(bar.step(5).enabled());
}
