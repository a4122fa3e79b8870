//! The playback state machine: which track is current, how far into it
//! playback has come, and whether time is advancing.
//!
//! The machine is `Idle` (no current track), `Paused` (a current track,
//! not playing) or `Playing` (a current track, playing). A periodic tick
//! advances the elapsed time by one second while playing and pauses the
//! machine exactly when the track's end is reached.

use vstd::prelude::*;
use crate::text::ascii_chars;
use crate::text::dec_bytes;
use crate::text::format_track_position;
use crate::text::of_separator;
use crate::track::Track;

verus! {

/// A change the presentation layer should react to. The payloadless
/// notice is advisory: subscribers re-read the state it points at.
#[derive(Clone, Copy, Debug, PartialEq, Eq, Structural)]
pub enum Notification {
    /// The catalog, its order or its columns changed.
    LibraryChanged,
    /// A tick advanced the elapsed time of the playing track.
    TimeAdvanced,
    /// A tick reached the end of the playing track.
    TrackEnded,
}

/// The current track with its playback position: a snapshot detached from
/// the catalog, so catalog mutation cannot disturb playback.
#[derive(Debug)]
pub struct CurrentTrack {
    pub track: Track,
    pub is_playing: bool,
    /// Elapsed whole seconds, never past the track's duration.
    pub current_time: u32,
}

impl Clone for CurrentTrack {
    fn clone(&self) -> (r: CurrentTrack)
        ensures
            r == *self,
    {
        CurrentTrack {
            track: self.track.clone(),
            is_playing: self.is_playing,
            current_time: self.current_time,
        }
    }
}

impl CurrentTrack {
    /// The elapsed time never passes the track's end.
    pub open spec fn wf(self) -> bool {
        self.current_time <= self.track.duration
    }

    /// Playback of a track starts at its beginning, paused until started.
    pub fn new(track: Track) -> (r: CurrentTrack)
        ensures
            r == (CurrentTrack { track, is_playing: false, current_time: 0 }),
            r.wf(),
    {
        CurrentTrack { track, is_playing: false, current_time: 0 }
    }

    /// The title of the current track.
    pub fn title(&self) -> (r: &String)
        ensures
            r@ == self.track.title@,
    {
        &self.track.title
    }

    /// The artist of the current track.
    pub fn artist(&self) -> (r: &String)
        ensures
            r@ == self.track.artist@,
    {
        &self.track.artist
    }

    /// The album of the current track.
    pub fn album(&self) -> (r: &String)
        ensures
            r@ == self.track.album@,
    {
        &self.track.album
    }

    /// The elapsed time, in whole seconds.
    pub fn current_time(&self) -> (r: u32)
        ensures
            r == self.current_time,
    {
        self.current_time
    }

    /// The current track's length, in whole seconds.
    pub fn duration(&self) -> (r: u32)
        ensures
            r == self.track.duration,
    {
        self.track.duration
    }

    /// How much of the current track remains, in whole seconds.
    pub fn time_remaining(&self) -> (r: u32)
        requires
            self.wf(),
        ensures
            r == self.track.duration - self.current_time,
    {
        self.track.duration - self.current_time
    }

    /// The current track, read-only.
    pub fn track(&self) -> (r: &Track)
        ensures
            r == &self.track,
    {
        &self.track
    }

    /// The track's position on its album, rendered as `n of m`.
    pub fn track_number(&self) -> (r: String)
        ensures
            r@ == ascii_chars(
                dec_bytes(self.track.track_number as int) + of_separator() + dec_bytes(
                    self.track.total_tracks as int,
                ),
            ),
    {
        format_track_position(self.track.track_number, self.track.total_tracks)
    }

    /// Whether time is advancing.
    pub fn is_playing(&self) -> (r: bool)
        ensures
            r == self.is_playing,
    {
        self.is_playing
    }

    /// Moves the playback position, staying within the track.
    pub fn set_current_time(&mut self, time: u32)
        requires
            time <= old(self).track.duration,
        ensures
            *final(self) == (CurrentTrack { current_time: time, ..*old(self) }),
            final(self).wf(),
    {
        self.current_time = time;
    }

    /// Starts or stops the advance of time.
    pub fn set_is_playing(&mut self, is_playing: bool)
        ensures
            *final(self) == (CurrentTrack { is_playing, ..*old(self) }),
    {
        self.is_playing = is_playing;
    }

    /// Replaces the track snapshot; the elapsed time must still fit it.
    pub fn set_track(&mut self, track: Track)
        requires
            old(self).current_time <= track.duration,
        ensures
            *final(self) == (CurrentTrack { track, ..*old(self) }),
            final(self).wf(),
    {
        self.track = track;
    }

    /// Overwrites the snapshot's play count.
    pub fn set_plays(&mut self, plays: u32)
        ensures
            final(self).track == (Track { plays, ..old(self).track }),
            final(self).is_playing == old(self).is_playing,
            final(self).current_time == old(self).current_time,
    {
        self.track.plays = plays;
    }

    /// Counts one more play of the snapshot's track.
    pub fn increment_plays(&mut self)
        requires
            old(self).track.plays < u32::MAX,
        ensures
            final(self).track == (Track { plays: (old(self).track.plays + 1) as u32, ..old(
                self,
            ).track }),
            final(self).is_playing == old(self).is_playing,
            final(self).current_time == old(self).current_time,
    {
        self.track.plays = self.track.plays + 1;
    }
}

/// Pausing: time stops advancing; with no current track, nothing changes.
pub open spec fn pause_state(s: Option<CurrentTrack>) -> Option<CurrentTrack> {
    match s {
        Some(ct) => Some(CurrentTrack { is_playing: false, ..ct }),
        None => None,
    }
}

/// Resuming: time advances again; with no current track, nothing changes.
pub open spec fn resume_state(s: Option<CurrentTrack>) -> Option<CurrentTrack> {
    match s {
        Some(ct) => Some(CurrentTrack { is_playing: true, ..ct }),
        None => None,
    }
}

/// One tick: while playing, a second elapses; reaching or passing the
/// track's end clamps the time to the end, pauses, and announces the end.
/// While paused or idle a tick changes nothing and announces nothing.
pub open spec fn tick_state(s: Option<CurrentTrack>) -> (Option<CurrentTrack>, Option<
    Notification,
>) {
    match s {
        None => (None, None),
        Some(ct) => {
            if !ct.is_playing {
                (Some(ct), None)
            } else if ct.current_time + 1 < ct.track.duration {
                (
                    Some(CurrentTrack { current_time: (ct.current_time + 1) as u32, ..ct }),
                    Some(Notification::TimeAdvanced),
                )
            } else {
                (
                    Some(
                        CurrentTrack { current_time: ct.track.duration, is_playing: false, ..ct },
                    ),
                    Some(Notification::TrackEnded),
                )
            }
        },
    }
}

/// The owner of playback state: the current track, if any.
#[derive(Debug)]
pub struct NowPlaying {
    pub current_track: Option<CurrentTrack>,
}

impl Default for NowPlaying {
    /// Playback starts idle: no current track.
    fn default() -> (r: NowPlaying)
        ensures
            r.current_track is None,
    {
        NowPlaying { current_track: None }
    }
}

impl NowPlaying {
    /// Whatever track is current keeps its time within its duration.
    pub open spec fn wf(self) -> bool {
        match self.current_track {
            Some(ct) => ct.wf(),
            None => true,
        }
    }

    /// The current track, if any, read-only.
    pub fn current_track(&self) -> (r: Option<&CurrentTrack>)
        ensures
            match r {
                Some(ct) => self.current_track is Some && *ct == self.current_track->0,
                None => self.current_track is None,
            },
    {
        self.current_track.as_ref()
    }

    /// Replaces the playback state wholesale.
    pub fn set_current_track(&mut self, current_track: Option<CurrentTrack>)
        ensures
            final(self).current_track == current_track,
            (current_track is Some ==> current_track->0.wf()) ==> final(self).wf(),
    {
        self.current_track = current_track;
    }

    /// Starts playing the given track from its beginning — also when the
    /// same track was already current: starting over resets the elapsed
    /// time to zero. Only an explicit `resume` preserves it.
    pub fn play_track(&mut self, track: Track)
        ensures
            final(self).current_track == Some(
                CurrentTrack { track, is_playing: true, current_time: 0 },
            ),
            final(self).wf(),
    {
        self.current_track = Some(CurrentTrack { track, is_playing: true, current_time: 0 });
    }

    /// Stops the advance of time; a no-op when idle.
    pub fn pause(&mut self)
        ensures
            final(self).current_track == pause_state(old(self).current_track),
            old(self).wf() ==> final(self).wf(),
    {
        match &mut self.current_track {
            Some(ct) => {
                ct.is_playing = false;
            },
            None => {},
        }
    }

    /// Starts the advance of time again; a no-op when idle.
    pub fn resume(&mut self)
        ensures
            final(self).current_track == resume_state(old(self).current_track),
            old(self).wf() ==> final(self).wf(),
    {
        match &mut self.current_track {
            Some(ct) => {
                ct.is_playing = true;
            },
            None => {},
        }
    }

    /// One tick of the playback clock, to be delivered once per second
    /// while playing: advances the elapsed time, and exactly at the
    /// track's end pauses and reports `TrackEnded` — one notification per
    /// tick, never a `TimeAdvanced` and a `TrackEnded` together.
    pub fn tick(&mut self) -> (r: Option<Notification>)
        requires
            old(self).wf(),
        ensures
            final(self).current_track == tick_state(old(self).current_track).0,
            r == tick_state(old(self).current_track).1,
            final(self).wf(),
    {
        match &mut self.current_track {
            None => None,
            Some(ct) => {
                if !ct.is_playing {
                    None
                } else {
                    let duration = ct.track.duration;
                    if duration - ct.current_time > 1 {
                        ct.current_time = ct.current_time + 1;
                        Some(Notification::TimeAdvanced)
                    } else {
                        ct.current_time = duration;
                        ct.is_playing = false;
                        Some(Notification::TrackEnded)
                    }
                }
            },
        }
    }
}

/// LAW: pausing is idempotent — pausing twice leaves exactly the state
/// that pausing once leaves.
pub proof fn lemma_pause_idempotent(s: Option<CurrentTrack>)
    ensures
        pause_state(pause_state(s)) == pause_state(s),
{
}

/// LAW: a tick taken one second before the end reaches the end exactly —
/// the time comes to rest at the duration, never past it, playback stops,
/// and the one notification of that tick is `TrackEnded`.
pub proof fn lemma_tick_reaches_end(ct: CurrentTrack)
    requires
        ct.wf(),
        ct.is_playing,
        ct.current_time == ct.track.duration - 1,
    ensures
        tick_state(Some(ct)).0 == Some(
            CurrentTrack { current_time: ct.track.duration, is_playing: false, ..ct },
        ),
        tick_state(Some(ct)).1 == Some(Notification::TrackEnded),
{
}

/// LAW: a tick in a paused or idle state neither moves time nor reports
/// anything.
pub proof fn lemma_tick_not_playing(s: Option<CurrentTrack>)
    requires
        s is Some ==> !s->0.is_playing,
    ensures
        tick_state(s).0 == s,
        tick_state(s).1 == None::<Notification>,
{
}

} // verus!
