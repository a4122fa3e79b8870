//! Track records and their identity.
//!
//! A track's identity is an opaque string assigned once, at construction,
//! from its title, artist and album plus a random component; it is never
//! recomputed, and equality of tracks is by identity alone.

use vstd::prelude::*;
use vstd::string::StringExecFns;

verus! {

/// Opaque, stable identity of a track, assigned at construction.
#[derive(Debug)]
pub struct TrackId(pub String);

impl View for TrackId {
    type V = Seq<char>;

    open spec fn view(&self) -> Seq<char> {
        self.0@
    }
}

impl Clone for TrackId {
    fn clone(&self) -> (r: TrackId)
        ensures
            r == *self,
    {
        TrackId(self.0.clone())
    }
}

impl TrackId {
    /// The identity as text.
    pub fn as_str(&self) -> (r: &str)
        ensures
            r@ == self@,
    {
        self.0.as_str()
    }

    /// Gives up the identity as the underlying text.
    pub fn into_string(self) -> (r: String)
        ensures
            r@ == self@,
    {
        self.0
    }
}

/// A track as it appears in the durable, serialized form: plain metadata,
/// without an identity.
#[derive(Debug)]
pub struct SerializableTrack {
    pub title: String,
    pub artist: String,
    pub album: String,
    /// Length in whole seconds.
    pub duration: u32,
    /// Free-text format label.
    pub kind: String,
    pub date_added: String,
    pub plays: u32,
    pub track_number: u32,
    pub total_tracks: u32,
}

impl Clone for SerializableTrack {
    fn clone(&self) -> (r: SerializableTrack)
        ensures
            r == *self,
    {
        SerializableTrack {
            title: self.title.clone(),
            artist: self.artist.clone(),
            album: self.album.clone(),
            duration: self.duration,
            kind: self.kind.clone(),
            date_added: self.date_added.clone(),
            plays: self.plays,
            track_number: self.track_number,
            total_tracks: self.total_tracks,
        }
    }
}

/// A track in the catalog: identity plus metadata.
#[derive(Debug)]
pub struct Track {
    pub id: TrackId,
    pub title: String,
    pub artist: String,
    pub album: String,
    /// Length in whole seconds.
    pub duration: u32,
    /// Free-text format label.
    pub kind: String,
    pub date_added: String,
    pub plays: u32,
    pub track_number: u32,
    pub total_tracks: u32,
}

impl Clone for Track {
    fn clone(&self) -> (r: Track)
        ensures
            r == *self,
    {
        Track {
            id: self.id.clone(),
            title: self.title.clone(),
            artist: self.artist.clone(),
            album: self.album.clone(),
            duration: self.duration,
            kind: self.kind.clone(),
            date_added: self.date_added.clone(),
            plays: self.plays,
            track_number: self.track_number,
            total_tracks: self.total_tracks,
        }
    }
}

/// A track's metadata, abstracted from how it is held.
pub struct TrackMeta {
    pub title: Seq<char>,
    pub artist: Seq<char>,
    pub album: Seq<char>,
    pub duration: u32,
    pub kind: Seq<char>,
    pub date_added: Seq<char>,
    pub plays: u32,
    pub track_number: u32,
    pub total_tracks: u32,
}

/// The metadata of a catalog track.
pub open spec fn meta_of(t: Track) -> TrackMeta {
    TrackMeta {
        title: t.title@,
        artist: t.artist@,
        album: t.album@,
        duration: t.duration,
        kind: t.kind@,
        date_added: t.date_added@,
        plays: t.plays,
        track_number: t.track_number,
        total_tracks: t.total_tracks,
    }
}

/// The metadata of a serialized track record.
pub open spec fn record_meta(r: SerializableTrack) -> TrackMeta {
    TrackMeta {
        title: r.title@,
        artist: r.artist@,
        album: r.album@,
        duration: r.duration,
        kind: r.kind@,
        date_added: r.date_added@,
        plays: r.plays,
        track_number: r.track_number,
        total_tracks: r.total_tracks,
    }
}

/// Relies on `uuid::Uuid::new_v4` and its display form: a freshly drawn
/// random identifier rendered as 36 hyphenated lowercase hex characters.
/// The value is random; nothing relates one call to another.
#[verifier::external_body]
fn fresh_uuid() -> (r: String)
    ensures
        r@.len() == 36,
{
    uuid::Uuid::new_v4().to_string()
}

/// A fresh identity: the title, artist and album joined by hyphens,
/// followed by a hyphen and a random component.
fn track_id(title: &String, artist: &String, album: &String) -> (r: TrackId)
    ensures
        exists|u: Seq<char>|
            u.len() == 36 && r@ == title@ + seq!['-'] + artist@ + seq!['-'] + album@ + seq!['-']
                + u,
{
    let uuid = fresh_uuid();
    let mut id = title.clone();
    id.append("-");
    id.append(artist.as_str());
    id.append("-");
    id.append(album.as_str());
    id.append("-");
    id.append(uuid.as_str());
    proof {
        reveal_strlit("-");
        assert("-"@ =~= seq!['-']);
        assert(id@ == title@ + seq!['-'] + artist@ + seq!['-'] + album@ + seq!['-'] + uuid@);
    }
    TrackId(id)
}

impl Track {
    /// Builds a catalog track from a serialized record, assigning a fresh
    /// identity. The metadata is taken over unchanged; no two calls yield
    /// tracks meant to be equal, even for identical metadata.
    pub fn from_record(record: SerializableTrack) -> (t: Track)
        ensures
            meta_of(t) == record_meta(record),
    {
        let id = track_id(&record.title, &record.artist, &record.album);
        Track {
            id,
            title: record.title,
            artist: record.artist,
            album: record.album,
            duration: record.duration,
            kind: record.kind,
            date_added: record.date_added,
            plays: record.plays,
            track_number: record.track_number,
            total_tracks: record.total_tracks,
        }
    }

    /// The track's metadata as a serialized record, shedding the identity.
    pub fn to_record(&self) -> (r: SerializableTrack)
        ensures
            record_meta(r) == meta_of(*self),
    {
        SerializableTrack {
            title: self.title.clone(),
            artist: self.artist.clone(),
            album: self.album.clone(),
            duration: self.duration,
            kind: self.kind.clone(),
            date_added: self.date_added.clone(),
            plays: self.plays,
            track_number: self.track_number,
            total_tracks: self.total_tracks,
        }
    }
}

} // verus!
