//! Sequencer engine: fans each clock pulse out to a fixed set of
//! tracks and multiplexes their events into a single ordered stream.
//!
//! One track index (the last, [`crate::ACCENT_TRACK`]) is reserved by
//! convention as a non-sounding accent track: the host-integration
//! layer keeps it disabled for playback and only consults its step
//! states to accent other tracks' notes. The engine itself has no
//! special-case logic for it.

use vstd::prelude::*;

use crate::event::EngineEvent;
use crate::track::{
    fresh_track, track_clock_model, track_flush_model, track_wf, Track, TrackModel,
};
use crate::{MAX_DELAY, TRACKS};

verus! {

/// How one clock pulse transforms the engine: every track sees the
/// pulse (a disabled track ignores it, see [`track_clock_model`]).
pub open spec fn engine_clock_model(m: Seq<TrackModel>, p: int) -> Seq<TrackModel> {
    m.map_values(|t: TrackModel| track_clock_model(t, p))
}

/// How a flush transforms the engine: every track flushes its pending
/// note-off, if any.
pub open spec fn engine_flush_model(m: Seq<TrackModel>) -> Seq<TrackModel> {
    m.map_values(|t: TrackModel| track_flush_model(t))
}

/// A swing amount in percent clamped to `[0, 100]`.
pub open spec fn clamped_percent(amount: int) -> int {
    if amount < 0 {
        0
    } else if amount > 100 {
        100
    } else {
        amount
    }
}

/// The swing offset in pulses that a swing amount in percent produces:
/// at most [`MAX_DELAY`] pulses, matching the track delay budget.
pub open spec fn swing_offset_of(amount: int) -> int {
    clamped_percent(amount) * MAX_DELAY as int / 100
}

/// Well-formedness of an engine state: exactly [`TRACKS`] well formed
/// tracks.
pub open spec fn engine_wf(m: Seq<TrackModel>) -> bool {
    &&& m.len() == TRACKS
    &&& forall|i: int| 0 <= i < m.len() ==> track_wf(#[trigger] m[i])
}

/// Replacing one track of a well-formed engine state by a well-formed
/// track keeps the engine state well formed.
pub proof fn lemma_engine_wf_update(m: Seq<TrackModel>, n: int, t: TrackModel)
    requires
        engine_wf(m),
        0 <= n < m.len(),
        track_wf(t),
    ensures
        engine_wf(m.update(n, t)),
{
    assert forall|i: int| 0 <= i < m.update(n, t).len() implies track_wf(
        #[trigger] m.update(n, t)[i],
    ) by {
        if i != n {
            assert(m.update(n, t)[i] == m[i]);
        }
    }
}

/// Sequencer engine: [`TRACKS`] tracks driven by one clock.
#[derive(Debug)]
pub struct Engine {
    /// Individual tracks.
    tracks: Vec<Track>,
}

impl View for Engine {
    type V = Seq<TrackModel>;

    closed spec fn view(&self) -> Seq<TrackModel> {
        self.tracks@.map_values(|t: Track| t@)
    }
}

impl Engine {
    /// An engine is well formed when its model is.
    pub open spec fn wf(&self) -> bool {
        engine_wf(self@)
    }

    /// Returns a new engine of [`TRACKS`] fresh tracks.
    pub fn new() -> (r: Engine)
        ensures
            r.wf(),
            forall|i: int| 0 <= i < TRACKS ==> fresh_track(#[trigger] r@[i]),
    {
        let mut tracks: Vec<Track> = Vec::new();
        let mut i: usize = 0;
        while i < TRACKS
            invariant
                i <= TRACKS,
                tracks@.len() == i,
                forall|j: int|
                    0 <= j < i ==> track_wf(#[trigger] tracks@[j]@) && fresh_track(tracks@[j]@),
            decreases TRACKS - i,
        {
            tracks.push(Track::new());
            i = i + 1;
        }
        Engine { tracks }
    }

    /// Distributes a clock pulse to every track, as
    /// [`engine_clock_model`] describes.
    pub fn clock(&mut self, pulse_no: i32)
        requires
            old(self).wf(),
        ensures
            final(self).wf(),
            final(self)@ == engine_clock_model(old(self)@, pulse_no as int),
    {
        let ghost m0 = self@;
        proof {
            assert forall|j: int| 0 <= j < TRACKS implies (#[trigger] self.tracks@[j])@ == m0[j] by {
                assert(m0[j] == self@[j]);
            }
        }
        let mut i: usize = 0;
        while i < TRACKS
            invariant
                i <= TRACKS,
                self.tracks@.len() == TRACKS,
                m0.len() == TRACKS,
                forall|j: int| 0 <= j < TRACKS ==> track_wf((#[trigger] self.tracks@[j])@),
                forall|j: int|
                    0 <= j < i ==> (#[trigger] self.tracks@[j])@ == track_clock_model(
                        m0[j],
                        pulse_no as int,
                    ),
                forall|j: int| i <= j < TRACKS ==> (#[trigger] self.tracks@[j])@ == m0[j],
            decreases TRACKS - i,
        {
            self.tracks[i].clock(pulse_no);
            i = i + 1;
        }
        proof {
            assert(self@ =~= engine_clock_model(m0, pulse_no as int));
        }
    }

    /// Returns the next pending event, scanning tracks in index order,
    /// tagged with its track number; `None` once every track's queue is
    /// empty. Events of the same pulse therefore come out in a stable,
    /// deterministic track order, and a track with an empty queue — in
    /// particular a disabled one that never filled it — is never named.
    #[verifier::rlimit(100)]
    pub fn next_event(&mut self) -> (r: Option<EngineEvent>)
        requires
            old(self).wf(),
        ensures
            final(self).wf(),
            r is None ==> final(self)@ == old(self)@ && forall|j: int|
                0 <= j < TRACKS ==> (#[trigger] old(self)@[j]).queue.len() == 0,
            r matches Some(ev) ==> {
                let n = ev.0 as int;
                &&& 0 <= n < TRACKS
                &&& old(self)@[n].queue.len() > 0
                &&& forall|j: int| 0 <= j < n ==> (#[trigger] old(self)@[j]).queue.len() == 0
                &&& ev.1 == old(self)@[n].queue[0]
                &&& final(self)@ == old(self)@.update(
                    n,
                    TrackModel { queue: old(self)@[n].queue.drop_first(), ..old(self)@[n] },
                )
            },
    {
        let ghost m0 = self@;
        proof {
            assert forall|j: int| 0 <= j < TRACKS implies (#[trigger] self.tracks@[j])@ == m0[j] by {
                assert(m0[j] == self@[j]);
            }
        }
        let mut i: usize = 0;
        while i < TRACKS
            invariant
                i <= TRACKS,
                old(self)@ == m0,
                self.tracks@.len() == TRACKS,
                m0.len() == TRACKS,
                forall|j: int| 0 <= j < TRACKS ==> track_wf(#[trigger] m0[j]),
                forall|j: int| 0 <= j < TRACKS ==> (#[trigger] self.tracks@[j])@ == m0[j],
                forall|j: int| 0 <= j < i ==> (#[trigger] m0[j]).queue.len() == 0,
            decreases TRACKS - i,
        {
            let ev = self.tracks[i].next_event();
            match ev {
                Some(e) => {
                    proof {
                        assert(self@ =~= m0.update(
                            i as int,
                            TrackModel { queue: m0[i as int].queue.drop_first(), ..m0[i as int] },
                        ));
                    }
                    return Some(EngineEvent(i as u32, e));
                },
                None => {},
            }
            i = i + 1;
        }
        proof {
            assert(self@ =~= m0);
        }
        None
    }

    /// Sets the global swing amount in percent (clamped to `[0, 100]`),
    /// converting it to the pulse offset every track applies to its odd
    /// sixteenth-note positions.
    #[verifier::rlimit(50)]
    pub fn set_swing(&mut self, amount: i32)
        requires
            old(self).wf(),
        ensures
            final(self).wf(),
            final(self)@.len() == TRACKS,
            forall|j: int|
                0 <= j < TRACKS ==> #[trigger] final(self)@[j] == (TrackModel {
                    swing: swing_offset_of(amount as int),
                    ..old(self)@[j]
                }),
    {
        let clamped: u32 = if amount < 0 {
            0
        } else if amount > 100 {
            100
        } else {
            amount as u32
        };
        let offset: u32 = clamped * MAX_DELAY / 100;
        let ghost m0 = self@;
        proof {
            assert forall|j: int| 0 <= j < TRACKS implies (#[trigger] self.tracks@[j])@ == m0[j] by {
                assert(m0[j] == self@[j]);
            }
        }
        let mut i: usize = 0;
        while i < TRACKS
            invariant
                i <= TRACKS,
                self.tracks@.len() == TRACKS,
                m0.len() == TRACKS,
                offset == swing_offset_of(amount as int),
                offset <= MAX_DELAY,
                forall|j: int| 0 <= j < TRACKS ==> track_wf((#[trigger] self.tracks@[j])@),
                forall|j: int|
                    0 <= j < i ==> (#[trigger] self.tracks@[j])@ == (TrackModel {
                        swing: offset as int,
                        ..m0[j]
                    }),
                forall|j: int| i <= j < TRACKS ==> (#[trigger] self.tracks@[j])@ == m0[j],
            decreases TRACKS - i,
        {
            self.tracks[i].set_swing(offset);
            i = i + 1;
        }
    }

    /// Flushes every track, as [`engine_flush_model`] describes. The
    /// host-integration layer calls this when the transport stops, so
    /// no note is left sounding.
    #[verifier::rlimit(50)]
    pub fn flush(&mut self)
        requires
            old(self).wf(),
        ensures
            final(self).wf(),
            final(self)@ == engine_flush_model(old(self)@),
    {
        let ghost m0 = self@;
        proof {
            assert forall|j: int| 0 <= j < TRACKS implies (#[trigger] self.tracks@[j])@ == m0[j] by {
                assert(m0[j] == self@[j]);
            }
        }
        let mut i: usize = 0;
        while i < TRACKS
            invariant
                i <= TRACKS,
                self.tracks@.len() == TRACKS,
                m0.len() == TRACKS,
                forall|j: int| 0 <= j < TRACKS ==> track_wf((#[trigger] self.tracks@[j])@),
                forall|j: int|
                    0 <= j < i ==> (#[trigger] self.tracks@[j])@ == track_flush_model(m0[j]),
                forall|j: int| i <= j < TRACKS ==> (#[trigger] self.tracks@[j])@ == m0[j],
            decreases TRACKS - i,
        {
            self.tracks[i].flush();
            i = i + 1;
        }
        proof {
            assert(self@ =~= engine_flush_model(m0));
        }
    }

    /// Returns a mutable reference to the tracks.
    pub fn tracks(&mut self) -> (r: &mut Vec<Track>)
        ensures
            r@.map_values(|t: Track| t@) == old(self)@,
            final(self)@ == final(r)@.map_values(|t: Track| t@),
    {
        &mut self.tracks
    }

    /// Returns a mutable reference to a specific track.
    #[verifier::rlimit(50)]
    pub fn track(&mut self, track_no: u32) -> (r: &mut Track)
        requires
            old(self).wf(),
            track_no < TRACKS,
        ensures
            r@ == old(self)@[track_no as int],
            final(self)@ == old(self)@.update(track_no as int, final(r)@),
            final(r).wf() ==> engine_wf(old(self)@.update(track_no as int, final(r)@)),
    {
        proof {
            assert forall|t: TrackModel| track_wf(t) implies engine_wf(
                #[trigger] old(self)@.update(track_no as int, t),
            ) by {
                lemma_engine_wf_update(old(self)@, track_no as int, t);
            }
        }
        &mut self.tracks[track_no as usize]
    }
}

impl Default for Engine {
    /// Returns a new engine, as [`Engine::new`] does.
    fn default() -> (r: Engine)
        ensures
            r.wf(),
            forall|i: int| 0 <= i < TRACKS ==> fresh_track(#[trigger] r@[i]),
    {
        Engine::new()
    }
}

/// Accent-track silence: a track that is disabled for playback with an
/// empty queue is left exactly as it is by every clock pulse, and by a
/// flush while no note-off is outstanding. Since
/// [`Engine::next_event`] names a track index only while that track's
/// queue was non-empty, such a track — in particular the reserved
/// accent track — never appears as the track index of any emitted
/// event, regardless of its step pattern.
pub proof fn lemma_accent_track_silent(m: Seq<TrackModel>, p: int, t: int)
    requires
        0 <= t < m.len(),
        !m[t].enabled,
    ensures
        engine_clock_model(m, p)[t] == m[t],
        m[t].pending is None ==> engine_flush_model(m)[t] == m[t],
{
}

} // verus!
