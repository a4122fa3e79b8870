use media_library::column::ColumnKind;
use media_library::library::{Library, SerializableLibrary};
use media_library::track::SerializableTrack;

fn rec(title: &str, artist: &str, album: &str, track_number: u32) -> SerializableTrack {
    SerializableTrack {
        title: title.to_string(),
        artist: artist.to_string(),
        album: album.to_string(),
        duration: 180,
        kind: "AAC audio file".to_string(),
        date_added: "2004-01-01".to_string(),
        plays: 0,
        track_number,
        total_tracks: 12,
    }
}

fn library_of(records: Vec<SerializableTrack>) -> Library {
    Library::from_serializable(SerializableLibrary {
        tracks: records,
        columns: Vec::new(),
    })
}

fn titles_in_order(lib: &Library) -> Vec<String> {
    let mut titles = Vec::new();
    for id in lib.track_order.iter() {
        let track = lib.get_track(id).expect("order holds a dangling id");
        titles.push(track.title.clone());
    }
    titles
}

#[test]
fn artist_sort_breaks_ties_by_album_then_track_number() {
    let lib = library_of(vec![
        rec("B", "X", "Alb2", 1),
        rec("A", "X", "Alb1", 1),
        rec("A", "X", "Alb1", 2),
    ]);
    // loading already sorts by artist
    let titles = titles_in_order(&lib);
    assert_eq!(titles, vec!["A".to_string(), "A".to_string(), "B".to_string()]);
    let numbers: Vec<u32> = lib
        .track_order
        .iter()
        .map(|id| lib.get_track(id).unwrap().track_number)
        .collect();
    assert_eq!(numbers, vec![1, 2, 1]);
    let albums: Vec<String> = lib
        .track_order
        .iter()
        .map(|id| lib.get_track(id).unwrap().album.clone())
        .collect();
    assert_eq!(
        albums,
        vec!["Alb1".to_string(), "Alb1".to_string(), "Alb2".to_string()]
    );
}

#[test]
fn sort_by_title() {
    let mut lib = library_of(vec![
        rec("Cherry", "Z", "One", 1),
        rec("Apple", "Y", "Two", 2),
        rec("Banana", "X", "Three", 3),
    ]);
    lib.sort_by_column(ColumnKind::Title);
    let titles = titles_in_order(&lib);
    assert_eq!(
        titles,
        vec![
            "Apple".to_string(),
            "Banana".to_string(),
            "Cherry".to_string()
        ]
    );
}

#[test]
fn sort_by_duration_and_track_number() {
    let mut lib = library_of(vec![
        rec("A", "X", "M", 3),
        rec("B", "X", "M", 1),
        rec("C", "X", "M", 2),
    ]);
    lib.sort_by_column(ColumnKind::TrackNumber);
    assert_eq!(
        titles_in_order(&lib),
        vec!["B".to_string(), "C".to_string(), "A".to_string()]
    );

    let mut lib2 = Library::from_serializable(SerializableLibrary {
        tracks: vec![
            SerializableTrack {
                duration: 300,
                ..rec("Long", "X", "M", 1)
            },
            SerializableTrack {
                duration: 60,
                ..rec("Short", "X", "M", 2)
            },
        ],
        columns: Vec::new(),
    });
    lib2.sort_by_column(ColumnKind::Duration);
    assert_eq!(
        titles_in_order(&lib2),
        vec!["Short".to_string(), "Long".to_string()]
    );
}

#[test]
fn sort_keeps_every_track() {
    let mut lib = library_of(vec![
        rec("D", "P", "M", 1),
        rec("C", "Q", "N", 2),
        rec("B", "R", "O", 3),
        rec("A", "S", "L", 4),
    ]);
    let mut ids_before: Vec<String> = lib.track_order.iter().map(|id| id.0.clone()).collect();
    lib.sort_by_column(ColumnKind::Title);
    lib.sort_by_column(ColumnKind::DateAdded);
    lib.sort_by_column(ColumnKind::Album);
    let mut ids_after: Vec<String> = lib.track_order.iter().map(|id| id.0.clone()).collect();
    ids_before.sort();
    ids_after.sort();
    assert_eq!(ids_before, ids_after);
    assert_eq!(lib.tracks.len(), 4);
}

#[test]
fn resort_is_stable_under_ties() {
    // same artist, album and track number: an artist sort must keep the
    // order a title sort established
    let mut lib = library_of(vec![
        rec("Delta", "Same", "Same", 1),
        rec("Alpha", "Same", "Same", 1),
        rec("Charlie", "Same", "Same", 1),
    ]);
    lib.sort_by_column(ColumnKind::Title);
    assert_eq!(
        titles_in_order(&lib),
        vec![
            "Alpha".to_string(),
            "Charlie".to_string(),
            "Delta".to_string()
        ]
    );
    lib.sort_by_column(ColumnKind::Artist);
    assert_eq!(
        titles_in_order(&lib),
        vec![
            "Alpha".to_string(),
            "Charlie".to_string(),
            "Delta".to_string()
        ]
    );
}

#[test]
fn playing_sort_is_a_no_op() {
    let mut lib = library_of(vec![
        rec("B", "X", "M", 1),
        rec("A", "Y", "N", 2),
    ]);
    let before: Vec<String> = lib.track_order.iter().map(|id| id.0.clone()).collect();
    lib.sort_by_column(ColumnKind::Playing);
    let after: Vec<String> = lib.track_order.iter().map(|id| id.0.clone()).collect();
    assert_eq!(before, after);
}

#[test]
fn sort_by_kind_and_date_added() {
    let mut lib = library_of(vec![
        SerializableTrack {
            kind: "MPEG audio file".to_string(),
            date_added: "2004-03-01".to_string(),
            ..rec("One", "X", "M", 1)
        },
        SerializableTrack {
            kind: "AAC audio file".to_string(),
            date_added: "2004-01-15".to_string(),
            ..rec("Two", "X", "M", 2)
        },
    ]);
    lib.sort_by_column(ColumnKind::Kind);
    assert_eq!(
        titles_in_order(&lib),
        vec!["Two".to_string(), "One".to_string()]
    );
    lib.sort_by_column(ColumnKind::DateAdded);
    assert_eq!(
        titles_in_order(&lib),
        vec!["Two".to_string(), "One".to_string()]
    );
}
