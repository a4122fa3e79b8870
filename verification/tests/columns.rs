use media_library::column::{default_columns, Column, ColumnKind};

#[test]
fn default_columns_are_the_eight_kinds_enabled() {
    let cols = default_columns();
    assert_eq!(cols.len(), 8);
    let kinds = [
        ColumnKind::Playing,
        ColumnKind::Title,
        ColumnKind::Artist,
        ColumnKind::Album,
        ColumnKind::Duration,
        ColumnKind::TrackNumber,
        ColumnKind::Kind,
        ColumnKind::DateAdded,
    ];
    for (col, kind) in cols.iter().zip(kinds.iter()) {
        assert_eq!(col.kind, *kind);
        assert!(col.enabled);
        assert!(col.width.is_none());
    }
}

#[test]
fn default_widths() {
    assert_eq!(Column::new(ColumnKind::Playing).width(), 17);
    assert_eq!(Column::new(ColumnKind::Title).width(), 300);
    assert_eq!(Column::new(ColumnKind::Artist).width(), 150);
    assert_eq!(Column::new(ColumnKind::Album).width(), 150);
    assert_eq!(Column::new(ColumnKind::Duration).width(), 100);
    assert_eq!(Column::new(ColumnKind::TrackNumber).width(), 50);
    assert_eq!(Column::new(ColumnKind::Kind).width(), 100);
    assert_eq!(Column::new(ColumnKind::DateAdded).width(), 150);
}

#[test]
fn display_names() {
    assert_eq!(Column::new(ColumnKind::Playing).name(), "");
    assert_eq!(Column::new(ColumnKind::Title).name(), "Name");
    assert_eq!(Column::new(ColumnKind::Artist).name(), "Artist");
    assert_eq!(Column::new(ColumnKind::Album).name(), "Album");
    assert_eq!(Column::new(ColumnKind::Duration).name(), "Time");
    assert_eq!(Column::new(ColumnKind::TrackNumber).name(), "Track Number");
    assert_eq!(Column::new(ColumnKind::Kind).name(), "Kind");
    assert_eq!(Column::new(ColumnKind::DateAdded).name(), "Date Added");
}

#[test]
fn width_override_and_enabled_flag() {
    let mut col = Column::new(ColumnKind::Title);
    col.set_width(Some(123));
    assert_eq!(col.width(), 123);
    col.set_width(None);
    assert_eq!(col.width(), 300);
    assert!(col.enabled());
    col.set_enabled(false);
    assert!(!col.enabled());
    col.set_enabled(true);
    assert!(col.enabled());
}
