//! The library: the track catalog, its display order, and the active
//! column configuration.
//!
//! The display order is always a permutation of the catalog's identities —
//! no entry dangles and none goes missing — and sorting rearranges the
//! order alone, never the catalog.

use vstd::prelude::*;
use crate::column::Column;
use crate::column::ColumnKind;
use crate::column::default_columns;
use crate::column::default_columns_spec;
use crate::sort::has_id;
use crate::sort::find_track;
use crate::sort::lemma_first_with_id;
use crate::sort::lemma_stable_sort_permutes;
use crate::sort::sorted_order;
use crate::sort::stable_sort;
use crate::sort::track_of;
use crate::track::SerializableTrack;
use crate::track::Track;
use crate::track::TrackId;
use crate::track::meta_of;
use crate::track::record_meta;

verus! {

/// The durable, serialized form of a library: its track records in display
/// order and its column configuration.
#[derive(Debug)]
pub struct SerializableLibrary {
    pub tracks: Vec<SerializableTrack>,
    pub columns: Vec<Column>,
}

/// Why a library could not be loaded. Either the source could not be read
/// at all, or what it held was not a well-formed library record.
#[derive(Clone, Copy, Debug, PartialEq, Eq, Structural)]
pub enum LoadError {
    Unreadable,
    Malformed,
}

impl Clone for SerializableLibrary {
    fn clone(&self) -> (r: SerializableLibrary)
        ensures
            r.tracks@ == self.tracks@,
            r.columns@ == self.columns@,
    {
        let r = SerializableLibrary {
            tracks: self.tracks.clone(),
            columns: self.columns.clone(),
        };
        proof {
            assert(r.tracks@ =~= self.tracks@);
            assert(r.columns@ =~= self.columns@);
        }
        r
    }
}

/// The identities of the catalog's tracks, in catalog order.
pub open spec fn catalog_ids(tracks: Seq<Track>) -> Seq<TrackId> {
    tracks.map_values(|t: Track| t.id)
}

/// The in-memory library: catalog, display order, columns.
#[derive(Debug)]
pub struct Library {
    pub tracks: Vec<Track>,
    pub track_order: Vec<TrackId>,
    pub columns: Vec<Column>,
}

impl Clone for Library {
    /// The full private copy behind the copy-on-write discipline: readers
    /// keep an older clone while a writer mutates its own and publishes it
    /// wholesale, so no reader sees a half-mutated state.
    fn clone(&self) -> (r: Library)
        ensures
            r.tracks@ == self.tracks@,
            r.track_order@ == self.track_order@,
            r.columns@ == self.columns@,
            self.wf() ==> r.wf(),
    {
        let r = Library {
            tracks: self.tracks.clone(),
            track_order: self.track_order.clone(),
            columns: self.columns.clone(),
        };
        proof {
            assert(r.tracks@ =~= self.tracks@);
            assert(r.track_order@ =~= self.track_order@);
            assert(r.columns@ =~= self.columns@);
        }
        r
    }
}

impl Default for Library {
    /// The same empty library `new` builds.
    fn default() -> (r: Library)
        ensures
            r.wf(),
            r.tracks@.len() == 0,
            r.track_order@.len() == 0,
            r.columns@.len() == 0,
    {
        Library::new()
    }
}

impl Library {
    /// The invariant every library operation preserves: the display order
    /// holds exactly the catalog's identities, each exactly as often as
    /// the catalog does.
    pub open spec fn wf(self) -> bool {
        self.track_order@.to_multiset() == catalog_ids(self.tracks@).to_multiset()
    }

    /// An empty library: no tracks, no columns.
    pub fn new() -> (r: Library)
        ensures
            r.wf(),
            r.tracks@.len() == 0,
            r.track_order@.len() == 0,
            r.columns@.len() == 0,
    {
        let r = Library { tracks: Vec::new(), track_order: Vec::new(), columns: Vec::new() };
        proof {
            assert(r.track_order@ =~= catalog_ids(r.tracks@));
        }
        r
    }

    /// The library a failed load degrades to: no tracks, but the full
    /// default column set, so the view stays usable.
    pub fn fallback() -> (r: Library)
        ensures
            r.wf(),
            r.tracks@.len() == 0,
            r.track_order@.len() == 0,
            r.columns@ == default_columns_spec(),
    {
        let r = Library {
            tracks: Vec::new(),
            track_order: Vec::new(),
            columns: default_columns(),
        };
        proof {
            assert(r.track_order@ =~= catalog_ids(r.tracks@));
        }
        r
    }

    /// A read-only snapshot of the column configuration.
    pub fn columns(&self) -> (r: Vec<Column>)
        ensures
            r@ == self.columns@,
    {
        let n = self.columns.len();
        let mut r: Vec<Column> = Vec::new();
        let mut i: usize = 0;
        while i < n
            invariant
                n == self.columns@.len(),
                0 <= i <= n,
                r@ == self.columns@.take(i as int),
            decreases n - i,
        {
            r.push(self.columns[i]);
            proof {
                assert(r@ =~= self.columns@.take(i as int + 1));
            }
            i += 1;
        }
        proof {
            assert(self.columns@.take(n as int) =~= self.columns@);
        }
        r
    }

    /// Replaces the column configuration wholesale. Kind uniqueness is the
    /// caller's to keep, and the track order is not resorted.
    pub fn set_columns(&mut self, columns: Vec<Column>)
        ensures
            final(self).columns@ == columns@,
            final(self).tracks@ == old(self).tracks@,
            final(self).track_order@ == old(self).track_order@,
            old(self).wf() ==> final(self).wf(),
    {
        self.columns = columns;
    }

    /// Every identity in the display order names a catalog track.
    pub proof fn lemma_wf_order_ids(self)
        requires
            self.wf(),
        ensures
            forall|i: int|
                0 <= i < self.track_order@.len() ==> has_id(
                    self.tracks@,
                    #[trigger] self.track_order@[i]@,
                ),
    {
        broadcast use vstd::seq_lib::group_to_multiset_ensures;

        let order = self.track_order@;
        let ids = catalog_ids(self.tracks@);
        assert forall|i: int| 0 <= i < order.len() implies has_id(
            self.tracks@,
            #[trigger] order[i]@,
        ) by {
            assert(order.contains(order[i]));
            assert(order.to_multiset().count(order[i]) > 0);
            assert(ids.contains(order[i]));
            let j = choose|j: int| 0 <= j < ids.len() && ids[j] == order[i];
            assert(self.tracks@[j].id == order[i]);
            lemma_first_with_id(self.tracks@, order[i]@);
        }
    }

    /// Reorders the display order in place by the given column's key, with
    /// a stable sort; the catalog and the columns stay as they were.
    /// `Playing` has nothing to sort by and leaves the order unchanged.
    pub fn sort_by_column(&mut self, kind: ColumnKind)
        requires
            old(self).wf(),
        ensures
            final(self).wf(),
            final(self).tracks@ == old(self).tracks@,
            final(self).columns@ == old(self).columns@,
            kind == ColumnKind::Playing ==> final(self).track_order@ == old(self).track_order@,
            kind != ColumnKind::Playing ==> final(self).track_order@ == stable_sort(
                old(self).tracks@,
                kind,
                old(self).track_order@,
            ),
    {
        match kind {
            ColumnKind::Playing => {},
            _ => {
                proof {
                    self.lemma_wf_order_ids();
                }
                let new_order = sorted_order(&self.tracks, &self.track_order, kind);
                proof {
                    lemma_stable_sort_permutes(self.tracks@, kind, self.track_order@);
                }
                self.track_order = new_order;
            },
        }
    }

    /// The track with the given identity, if the catalog holds one.
    pub fn get_track<'a>(&'a self, id: &TrackId) -> (r: Option<&'a Track>)
        ensures
            match r {
                Some(t) => has_id(self.tracks@, id@) && *t == track_of(self.tracks@, id@),
                None => !has_id(self.tracks@, id@),
            },
    {
        find_track(&self.tracks, id)
    }
}

/// What holds of a library built from a serialized form: the catalog's
/// tracks carry the records' metadata in order (under fresh identities),
/// the display order is the catalog stably sorted by artist, and an empty
/// column list is replaced by the default configuration.
pub open spec fn loaded_from(lib: Library, s: SerializableLibrary) -> bool {
    &&& lib.wf()
    &&& lib.tracks@.len() == s.tracks@.len()
    &&& forall|i: int|
        0 <= i < s.tracks@.len() ==> meta_of(#[trigger] lib.tracks@[i]) == record_meta(
            s.tracks@[i],
        )
    &&& lib.track_order@ == stable_sort(
        lib.tracks@,
        ColumnKind::Artist,
        catalog_ids(lib.tracks@),
    )
    &&& lib.columns@ == if s.columns@.len() == 0 {
        default_columns_spec()
    } else {
        s.columns@
    }
}

/// What holds of a serialized form taken from a library: the records carry
/// the metadata of the library's tracks in display order, and the columns
/// are the library's.
pub open spec fn serialized_from(s: SerializableLibrary, lib: Library) -> bool {
    &&& s.columns@ == lib.columns@
    &&& s.tracks@.len() == lib.track_order@.len()
    &&& forall|i: int|
        0 <= i < s.tracks@.len() ==> record_meta(#[trigger] s.tracks@[i]) == meta_of(
            track_of(lib.tracks@, lib.track_order@[i]@),
        )
}

impl Library {
    /// Builds the library a serialized form describes: a catalog of fresh
    /// tracks holding the records' metadata, initially ordered as the
    /// records came, then stably sorted by artist; an empty column list is
    /// replaced by the defaults.
    pub fn from_serializable(s: SerializableLibrary) -> (lib: Library)
        ensures
            loaded_from(lib, s),
    {
        let n = s.tracks.len();
        let mut tracks: Vec<Track> = Vec::new();
        let mut order: Vec<TrackId> = Vec::new();
        let mut i: usize = 0;
        while i < n
            invariant
                n == s.tracks@.len(),
                0 <= i <= n,
                tracks@.len() == i,
                order@.len() == i,
                forall|p: int|
                    0 <= p < i ==> meta_of(#[trigger] tracks@[p]) == record_meta(s.tracks@[p]),
                forall|p: int| 0 <= p < i ==> #[trigger] order@[p] == tracks@[p].id,
            decreases n - i,
        {
            let t = Track::from_record(s.tracks[i].clone());
            order.push(t.id.clone());
            tracks.push(t);
            i += 1;
        }
        proof {
            assert(order@ =~= catalog_ids(tracks@));
        }
        let columns = if s.columns.len() == 0 {
            default_columns()
        } else {
            s.columns
        };
        let mut lib = Library { tracks, track_order: order, columns };
        proof {
            assert(lib.wf());
        }
        lib.sort_by_column(ColumnKind::Artist);
        lib
    }

    /// Loads a library from the outcome of reading and decoding a durable
    /// source: a decoded form loads as `from_serializable` describes, and
    /// a failure is passed through untouched — nothing is half-ingested.
    pub fn load(source: Result<SerializableLibrary, LoadError>) -> (r: Result<Library, LoadError>)
        ensures
            match source {
                Ok(s) => r is Ok && loaded_from(r->Ok_0, s),
                Err(e) => r == Result::<Library, LoadError>::Err(e),
            },
    {
        match source {
            Ok(s) => Ok(Library::from_serializable(s)),
            Err(e) => Err(e),
        }
    }

    /// The library's durable form: its tracks' metadata in display order,
    /// and its column configuration.
    pub fn to_serializable(&self) -> (s: SerializableLibrary)
        requires
            self.wf(),
        ensures
            serialized_from(s, *self),
    {
        proof {
            self.lemma_wf_order_ids();
        }
        let n = self.track_order.len();
        let mut records: Vec<SerializableTrack> = Vec::new();
        let mut i: usize = 0;
        while i < n
            invariant
                n == self.track_order@.len(),
                0 <= i <= n,
                self.wf(),
                records@.len() == i,
                forall|p: int|
                    0 <= p < i ==> record_meta(#[trigger] records@[p]) == meta_of(
                        track_of(self.tracks@, self.track_order@[p]@),
                    ),
            decreases n - i,
        {
            proof {
                self.lemma_wf_order_ids();
            }
            let t = find_track(&self.tracks, &self.track_order[i]).unwrap();
            records.push(t.to_record());
            i += 1;
        }
        SerializableLibrary { tracks: records, columns: self.columns() }
    }
}

/// LAW: a round trip through the durable form reproduces the library's
/// track set — the reloaded catalog carries, in the first library's
/// display order, exactly that library's tracks' metadata (identities are
/// assigned afresh) — and reproduces the column configuration, except
/// that an empty one comes back as the defaults.
pub proof fn lemma_round_trip(lib: Library, s: SerializableLibrary, reloaded: Library)
    requires
        lib.wf(),
        serialized_from(s, lib),
        loaded_from(reloaded, s),
    ensures
        reloaded.tracks@.map_values(|t: Track| meta_of(t)) == Seq::new(
            lib.track_order@.len(),
            |i: int| meta_of(track_of(lib.tracks@, lib.track_order@[i]@)),
        ),
        lib.columns@.len() > 0 ==> reloaded.columns@ == lib.columns@,
        lib.columns@.len() == 0 ==> reloaded.columns@ == default_columns_spec(),
{
    assert(reloaded.tracks@.map_values(|t: Track| meta_of(t)) =~= Seq::new(
        lib.track_order@.len(),
        |i: int| meta_of(track_of(lib.tracks@, lib.track_order@[i]@)),
    ));
}

} // verus!
