//! The column model: user-configurable, ordered display/sort fields with a
//! per-field width and an enabled flag.

use vstd::prelude::*;

verus! {

/// The closed set of fields a library view can display and sort by.
#[derive(Clone, Copy, Debug, PartialEq, Eq, Structural)]
pub enum ColumnKind {
    Playing,
    Title,
    Artist,
    Album,
    Duration,
    TrackNumber,
    Kind,
    DateAdded,
}

/// Intrinsic default display width of each column kind, in logical pixels.
pub open spec fn default_width(kind: ColumnKind) -> u32 {
    match kind {
        ColumnKind::Playing => 17,
        ColumnKind::Title => 300,
        ColumnKind::Artist => 150,
        ColumnKind::Album => 150,
        ColumnKind::Duration => 100,
        ColumnKind::TrackNumber => 50,
        ColumnKind::Kind => 100,
        ColumnKind::DateAdded => 150,
    }
}

/// Fixed display name of each column kind.
pub open spec fn display_name(kind: ColumnKind) -> Seq<char> {
    match kind {
        ColumnKind::Playing => ""@,
        ColumnKind::Title => "Name"@,
        ColumnKind::Artist => "Artist"@,
        ColumnKind::Album => "Album"@,
        ColumnKind::Duration => "Time"@,
        ColumnKind::TrackNumber => "Track Number"@,
        ColumnKind::Kind => "Kind"@,
        ColumnKind::DateAdded => "Date Added"@,
    }
}

/// One display/sort field: its kind, an optional width override, and
/// whether it is currently shown.
#[derive(Copy, Debug)]
pub struct Column {
    pub kind: ColumnKind,
    pub width: Option<u32>,
    pub enabled: bool,
}

impl Clone for Column {
    fn clone(&self) -> (r: Column)
        ensures
            r == *self,
    {
        *self
    }
}

/// The width a column is drawn with: the override if present, else the
/// kind's default.
pub open spec fn effective_width(c: Column) -> u32 {
    match c.width {
        Some(w) => w,
        None => default_width(c.kind),
    }
}

impl Column {
    /// A freshly added column: enabled, with no width override.
    pub fn new(kind: ColumnKind) -> (r: Column)
        ensures
            r == (Column { kind, width: None, enabled: true }),
    {
        Column { kind, width: None, enabled: true }
    }

    /// The fixed display name of this column.
    pub fn name(&self) -> (r: String)
        ensures
            r@ == display_name(self.kind),
    {
        match self.kind {
            ColumnKind::Playing => "".to_owned(),
            ColumnKind::Title => "Name".to_owned(),
            ColumnKind::Artist => "Artist".to_owned(),
            ColumnKind::Album => "Album".to_owned(),
            ColumnKind::Duration => "Time".to_owned(),
            ColumnKind::TrackNumber => "Track Number".to_owned(),
            ColumnKind::Kind => "Kind".to_owned(),
            ColumnKind::DateAdded => "Date Added".to_owned(),
        }
    }

    /// The width this column is drawn with.
    pub fn width(&self) -> (r: u32)
        ensures
            r == effective_width(*self),
    {
        match self.width {
            Some(w) => w,
            None => match self.kind {
                ColumnKind::Playing => 17,
                ColumnKind::Title => 300,
                ColumnKind::Artist => 150,
                ColumnKind::Album => 150,
                ColumnKind::Duration => 100,
                ColumnKind::TrackNumber => 50,
                ColumnKind::Kind => 100,
                ColumnKind::DateAdded => 150,
            },
        }
    }

    /// Overrides (or, with `None`, clears the override of) the width.
    pub fn set_width(&mut self, width: Option<u32>)
        ensures
            *final(self) == (Column { width, ..*old(self) }),
    {
        self.width = width;
    }

    /// Shows or hides the column; sortability is unaffected.
    pub fn set_enabled(&mut self, enabled: bool)
        ensures
            *final(self) == (Column { enabled, ..*old(self) }),
    {
        self.enabled = enabled;
    }

    /// Whether the column is currently shown.
    pub fn enabled(&self) -> (r: bool)
        ensures
            r == self.enabled,
    {
        self.enabled
    }
}

/// The canonical column configuration: the eight kinds in display order,
/// each enabled and at its default width.
pub open spec fn default_columns_spec() -> Seq<Column> {
    seq![
        Column { kind: ColumnKind::Playing, width: None, enabled: true },
        Column { kind: ColumnKind::Title, width: None, enabled: true },
        Column { kind: ColumnKind::Artist, width: None, enabled: true },
        Column { kind: ColumnKind::Album, width: None, enabled: true },
        Column { kind: ColumnKind::Duration, width: None, enabled: true },
        Column { kind: ColumnKind::TrackNumber, width: None, enabled: true },
        Column { kind: ColumnKind::Kind, width: None, enabled: true },
        Column { kind: ColumnKind::DateAdded, width: None, enabled: true },
    ]
}

/// The canonical column configuration a library starts from when a loaded
/// one is absent or empty.
pub fn default_columns() -> (r: Vec<Column>)
    ensures
        r@ == default_columns_spec(),
{
    let mut cols: Vec<Column> = Vec::new();
    cols.push(Column::new(ColumnKind::Playing));
    cols.push(Column::new(ColumnKind::Title));
    cols.push(Column::new(ColumnKind::Artist));
    cols.push(Column::new(ColumnKind::Album));
    cols.push(Column::new(ColumnKind::Duration));
    cols.push(Column::new(ColumnKind::TrackNumber));
    cols.push(Column::new(ColumnKind::Kind));
    cols.push(Column::new(ColumnKind::DateAdded));
    proof {
        assert(cols@ =~= default_columns_spec());
    }
    cols
}

} // verus!
