use media_library::column::{Column, ColumnKind};
use media_library::library::{Library, LoadError, SerializableLibrary};
use media_library::track::{SerializableTrack, Track};

fn rec(title: &str, artist: &str, album: &str) -> SerializableTrack {
    SerializableTrack {
        title: title.to_string(),
        artist: artist.to_string(),
        album: album.to_string(),
        duration: 200,
        kind: "AAC audio file".to_string(),
        date_added: "2004-06-01".to_string(),
        plays: 5,
        track_number: 1,
        total_tracks: 10,
    }
}

#[test]
fn failed_load_passes_the_error_through() {
    let r = Library::load(Err(LoadError::Unreadable));
    assert!(matches!(r, Err(LoadError::Unreadable)));
    let r = Library::load(Err(LoadError::Malformed));
    assert!(matches!(r, Err(LoadError::Malformed)));
}

#[test]
fn fallback_library_is_empty_with_default_columns() {
    let lib = Library::fallback();
    assert_eq!(lib.tracks.len(), 0);
    assert_eq!(lib.track_order.len(), 0);
    let cols = lib.columns();
    assert_eq!(cols.len(), 8);
    assert!(cols.iter().all(|c| c.enabled));
}

#[test]
fn new_library_is_empty() {
    let lib = Library::new();
    assert_eq!(lib.tracks.len(), 0);
    assert_eq!(lib.track_order.len(), 0);
    assert_eq!(lib.columns().len(), 0);
    let lib: Library = Default::default();
    assert_eq!(lib.tracks.len(), 0);
}

#[test]
fn empty_column_list_loads_as_defaults() {
    let lib = Library::from_serializable(SerializableLibrary {
        tracks: vec![rec("T", "A", "L")],
        columns: Vec::new(),
    });
    assert_eq!(lib.columns().len(), 8);
    assert_eq!(lib.tracks.len(), 1);
    assert_eq!(lib.track_order.len(), 1);
}

#[test]
fn nonempty_column_list_is_kept() {
    let mut narrow = Column::new(ColumnKind::Title);
    narrow.set_width(Some(42));
    let lib = Library::from_serializable(SerializableLibrary {
        tracks: Vec::new(),
        columns: vec![narrow, Column::new(ColumnKind::Artist)],
    });
    let cols = lib.columns();
    assert_eq!(cols.len(), 2);
    assert_eq!(cols[0].kind, ColumnKind::Title);
    assert_eq!(cols[0].width(), 42);
    assert_eq!(cols[1].kind, ColumnKind::Artist);
}

#[test]
fn set_columns_replaces_wholesale() {
    let mut lib = Library::new();
    lib.set_columns(vec![Column::new(ColumnKind::Duration)]);
    let cols = lib.columns();
    assert_eq!(cols.len(), 1);
    assert_eq!(cols[0].kind, ColumnKind::Duration);
}

#[test]
fn round_trip_keeps_tracks_and_columns() {
    let lib = Library::from_serializable(SerializableLibrary {
        tracks: vec![rec("B", "X", "Alb2"), rec("A", "X", "Alb1"), rec("C", "Y", "Alb3")],
        columns: Vec::new(),
    });
    let serialized = lib.to_serializable();
    let reloaded = Library::from_serializable(serialized);

    let mut before: Vec<(String, String, String)> = lib
        .tracks
        .iter()
        .map(|t| (t.title.clone(), t.artist.clone(), t.album.clone()))
        .collect();
    let mut after: Vec<(String, String, String)> = reloaded
        .tracks
        .iter()
        .map(|t| (t.title.clone(), t.artist.clone(), t.album.clone()))
        .collect();
    before.sort();
    after.sort();
    assert_eq!(before, after);

    // identities are assigned afresh, but the count and the columns carry over
    assert_eq!(reloaded.tracks.len(), 3);
    assert_eq!(reloaded.columns().len(), 8);
    assert_eq!(lib.columns().len(), 8);

    // the reloaded display order is again the artist ordering
    let artists: Vec<String> = reloaded
        .track_order
        .iter()
        .map(|id| reloaded.get_track(id).unwrap().artist.clone())
        .collect();
    assert_eq!(
        artists,
        vec!["X".to_string(), "X".to_string(), "Y".to_string()]
    );
}

#[test]
fn serialization_lists_tracks_in_display_order() {
    let lib = Library::from_serializable(SerializableLibrary {
        tracks: vec![rec("T2", "B", "L2"), rec("T1", "A", "L1")],
        columns: Vec::new(),
    });
    let s = lib.to_serializable();
    assert_eq!(s.tracks.len(), 2);
    assert_eq!(s.tracks[0].artist, "A");
    assert_eq!(s.tracks[1].artist, "B");
    assert_eq!(s.columns.len(), 8);
}

#[test]
fn fresh_identities_even_for_identical_metadata() {
    let a = Track::from_record(rec("T", "A", "L"));
    let b = Track::from_record(rec("T", "A", "L"));
    assert_ne!(a.id.0, b.id.0);
    assert_eq!(a.title, b.title);
}

#[test]
fn track_id_survives_conversion() {
    let t = Track::from_record(rec("T", "A", "L"));
    let id = t.id.clone();
    assert_eq!(id.as_str(), t.id.0.as_str());
    let s = id.into_string();
    assert_eq!(s, t.id.0);
    assert!(s.starts_with("T-A-L-"));
}

#[test]
fn clone_is_a_full_snapshot() {
    let lib = Library::from_serializable(SerializableLibrary {
        tracks: vec![rec("T2", "B", "L2"), rec("T1", "A", "L1")],
        columns: Vec::new(),
    });
    let snapshot = lib.clone();
    let mut writer = lib.clone();
    writer.sort_by_column(ColumnKind::Title);
    writer.set_columns(vec![Column::new(ColumnKind::Title)]);
    // the reader's snapshot is untouched by the writer's mutations
    assert_eq!(snapshot.columns().len(), 8);
    let titles: Vec<String> = snapshot
        .track_order
        .iter()
        .map(|id| snapshot.get_track(id).unwrap().title.clone())
        .collect();
    assert_eq!(titles, vec!["T1".to_string(), "T2".to_string()]);
    let writer_titles: Vec<String> = writer
        .track_order
        .iter()
        .map(|id| writer.get_track(id).unwrap().title.clone())
        .collect();
    assert_eq!(writer_titles, vec!["T1".to_string(), "T2".to_string()]);
}

#[test]
fn get_track_misses_absent_ids() {
    let lib = Library::from_serializable(SerializableLibrary {
        tracks: vec![rec("T", "A", "L")],
        columns: Vec::new(),
    });
    let present = lib.track_order[0].clone();
    assert!(lib.get_track(&present).is_some());
    let absent = media_library::track::TrackId("no-such-id".to_string());
    assert!(lib.get_track(&absent).is_none());
}
