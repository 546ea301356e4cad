//! Tests of the engine's fan-out, event ordering and accent convention.

use dr_seq::engine::Engine;
use dr_seq::event::{EngineEvent, TrackEvent};
use dr_seq::step::Pitch;
use dr_seq::{ACCENT_TRACK, TRACKS};

/// Clocks the engine over `pulses` and collects each emitted event with
/// the pulse at which it was drained.
fn run(engine: &mut Engine, pulses: std::ops::Range<i32>) -> Vec<(i32, EngineEvent)> {
    let mut out = Vec::new();
    for p in pulses {
        engine.clock(p);
        while let Some(ev) = engine.next_event() {
            out.push((p, ev));
        }
    }
    out
}

/// A fresh engine with every track silenced, as a host would configure
/// it before enabling the tracks in use.
fn quiet_engine() -> Engine {
    let mut engine = Engine::new();
    for t in 0..TRACKS {
        engine.track(t as u32).disable();
    }
    engine
}

#[test]
fn accent_track_never_emits() {
    // the reserved accent track carries steps but stays disabled for
    // playback; it must never appear as the track index of any event
    let mut engine = quiet_engine();
    engine.track(0).enable();
    engine.track(0).pattern().bar(0).step(0).enable();
    for s in 0..16 {
        engine.track(ACCENT_TRACK as u32).pattern().bar(0).step(s).enable();
    }
    let events = run(&mut engine, 0..(16 * 96));
    assert!(!events.is_empty());
    for (_, EngineEvent(track_no, _)) in &events {
        assert_ne!(*track_no, ACCENT_TRACK as u32);
    }
}

#[test]
fn events_come_out_in_track_order() {
    // two tracks firing on the same pulse emit in index order
    let mut engine = quiet_engine();
    for t in [2u32, 5u32] {
        engine.track(t).enable();
        engine.track(t).pattern().bar(0).step(0).enable();
    }
    let events = run(&mut engine, 0..1);
    let tracks: Vec<u32> = events.iter().map(|(_, EngineEvent(t, _))| *t).collect();
    assert_eq!(tracks, vec![2, 5]);
    for (_, EngineEvent(_, ev)) in &events {
        assert!(matches!(ev, TrackEvent::NoteOn { bar: 0, step: 0, .. }));
    }
}

#[test]
fn engine_swing_reaches_every_track() {
    let mut engine = quiet_engine();
    engine.set_swing(50);
    for t in [0u32, 3u32] {
        engine.track(t).enable();
        engine.track(t).pattern().bar(0).step(1).enable();
    }
    let events = run(&mut engine, 0..200);
    // swing of 50 percent converts to half the delay budget: 24 pulses
    let pulses: Vec<i32> = events
        .iter()
        .filter(|(_, EngineEvent(_, ev))| matches!(ev, TrackEvent::NoteOn { .. }))
        .map(|(p, _)| *p)
        .collect();
    assert_eq!(pulses, vec![96 + 24, 96 + 24]);
}

#[test]
fn engine_swing_is_clamped_to_full_budget() {
    let mut engine = quiet_engine();
    engine.set_swing(1000);
    engine.track(0).enable();
    engine.track(0).pattern().bar(0).step(1).enable();
    let events = run(&mut engine, 0..200);
    assert_eq!(events[0].0, 96 + 48);

    let mut engine2 = quiet_engine();
    engine2.set_swing(-7);
    engine2.track(0).enable();
    engine2.track(0).pattern().bar(0).step(1).enable();
    let events2 = run(&mut engine2, 0..200);
    assert_eq!(events2[0].0, 96);
}

#[test]
fn engine_flush_resolves_all_pending_offs() {
    let mut engine = quiet_engine();
    for t in [1u32, 4u32] {
        engine.track(t).enable();
        engine.track(t).pattern().bar(0).step(0).enable();
    }
    engine.clock(0);
    // drain the note-ons; the note-offs stay pending
    while let Some(EngineEvent(_, ev)) = engine.next_event() {
        assert!(matches!(ev, TrackEvent::NoteOn { .. }));
    }
    // the transport stops: flushing emits both note-offs, in track order
    engine.flush();
    let mut offs = Vec::new();
    while let Some(EngineEvent(t, ev)) = engine.next_event() {
        assert!(matches!(ev, TrackEvent::NoteOff { bar: 0, step: 0, .. }));
        offs.push(t);
    }
    assert_eq!(offs, vec![1, 4]);
    assert_eq!(engine.next_event(), None);
}

#[test]
fn disabled_tracks_are_skipped() {
    let mut engine = quiet_engine();
    engine.track(0).pattern().bar(0).step(0).enable();
    let events = run(&mut engine, 0..200);
    assert!(events.is_empty());
}

#[test]
fn per_track_delay_is_independent() {
    let mut engine = quiet_engine();
    for t in [0u32, 1u32] {
        engine.track(t).enable();
        engine.track(t).pattern().bar(0).step(0).enable();
    }
    engine.track(1).set_delay(12);
    let events = run(&mut engine, 0..96);
    let ons: Vec<(i32, u32)> = events
        .iter()
        .filter(|(_, EngineEvent(_, ev))| matches!(ev, TrackEvent::NoteOn { .. }))
        .map(|(p, EngineEvent(t, _))| (*p, *t))
        .collect();
    assert_eq!(ons, vec![(0, 0), (12, 1)]);
}

#[test]
fn accent_pattern_is_readable_for_velocity_decisions() {
    // the host reads the accent track's steps to accent other tracks'
    // notes; the engine only stores them
    let mut engine = quiet_engine();
    engine.track(ACCENT_TRACK as u32).pattern().bar(0).step(2).enable();
    assert!(engine.track(ACCENT_TRACK as u32).pattern().bar(0).step(2).enabled());
    assert!(!engine.track(ACCENT_TRACK as u32).pattern().bar(0).step(3).enabled());
}

#[test]
fn tracks_accessor_exposes_all_tracks() {
    let mut engine = Engine::new();
    assert_eq!(engine.tracks().len(), TRACKS);
    engine.tracks()[7].set_delay(3);
    assert_eq!(engine.track(7).delay(), 3);
    let pitch = Pitch::Custom(36);
    engine.tracks()[7].pattern().bar(0).step(0).set_pitch(pitch);
    assert_eq!(engine.track(7).pattern().bar(0).step(0).pitch(), pitch);
}

#[test]
fn default_engine_matches_new() {
    let mut a: Engine = Default::default();
    let mut b = Engine::new();
    let ea = run(&mut a, 0..1);
    let eb = run(&mut b, 0..1);
    // fresh engines have enabled tracks but blank patterns: no events
    assert!(ea.is_empty());
    assert!(eb.is_empty());
}
