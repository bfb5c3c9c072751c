//! Records of the comic library.
use vstd::prelude::*;

verus! {

#[derive(Debug, Clone, PartialEq, Eq)]
pub struct Comic {
    pub id: i64,
    pub path: String,
    pub hash: String,
    pub page_count: u32,
    pub metadata_id: Option<i64>,
    pub availability: ComicAvailability,
    pub thumbnail_key: Option<String>,
}

#[derive(Debug, Clone, PartialEq, Eq)]
pub struct ComicInput {
    pub path: String,
    pub hash: String,
    pub page_count: u32,
    pub metadata_id: Option<i64>,
}

#[derive(Debug, Clone, PartialEq, Eq)]
pub struct Folder {
    pub id: i64,
    pub path: String,
    pub parent_id: Option<i64>,
}

#[derive(Debug, Clone, PartialEq, Eq)]
pub struct Progress {
    pub comic_id: i64,
    pub current_page: u32,
    pub is_read: bool,
    pub updated_at: i64,
}

#[derive(Debug, Clone, Copy, PartialEq, Eq)]
pub struct Bookmark {
    pub comic_id: i64,
    pub page_index: u32,
    pub created_at: i64,
}

#[derive(Debug, Clone, Default, PartialEq, Eq)]
pub struct ComicMetadata {
    pub id: Option<i64>,
    pub series: Option<String>,
    pub title: Option<String>,
    pub number: Option<String>,
    pub writer: Option<String>,
    pub penciller: Option<String>,
}

#[derive(Debug, Clone, Default, PartialEq, Eq)]
pub struct ComicMetadataDisplay {
    pub series: Option<String>,
    pub title: Option<String>,
    pub number: Option<String>,
    pub writer: Option<String>,
    pub penciller: Option<String>,
}

#[derive(Debug, Clone, PartialEq, Eq)]
pub struct LibraryComicRow {
    pub comic: Comic,
    pub metadata: ComicMetadataDisplay,
}

/// One page entry of an archive: its entry path and its position in reading
/// order.
#[derive(Debug, Clone, PartialEq, Eq)]
pub struct ArchivePage {
    pub path: String,
    pub sort_index: usize,
}

/// Whether a comic's file can currently be opened.
#[derive(Debug, Clone, Copy, Default, PartialEq, Eq, Structural)]
pub enum ComicAvailability {
    #[default]
    Available,
    Unavailable,
}

impl ComicAvailability {
    /// The stored integer: 1 for available, 0 for unavailable.
    pub open spec fn stored(self) -> i64 {
        match self {
            ComicAvailability::Available => 1,
            ComicAvailability::Unavailable => 0,
        }
    }

    pub fn as_i64(self) -> (r: i64)
        ensures
            r == self.stored(),
    {
        match self {
            ComicAvailability::Available => 1,
            ComicAvailability::Unavailable => 0,
        }
    }

    /// Reads a stored integer back: 0 is unavailable, any other value is
    /// available.
    pub fn from_i64(value: i64) -> (r: Self)
        ensures
            r == (if value == 0 {
                ComicAvailability::Unavailable
            } else {
                ComicAvailability::Available
            }),
    {
        if value == 0 {
            ComicAvailability::Unavailable
        } else {
            ComicAvailability::Available
        }
    }
}

/// Storing an availability and reading it back gives the same availability.
pub proof fn lemma_availability_round_trip(a: ComicAvailability)
    ensures
        (if a.stored() == 0 {
            ComicAvailability::Unavailable
        } else {
            ComicAvailability::Available
        }) == a,
{
}

#[derive(Debug, Clone, Default, PartialEq, Eq)]
pub enum LibraryScanStatus {
    #[default]
    Idle,
    Scanning,
    Synchronized,
    Failed(String),
}

#[derive(Debug, Clone, PartialEq, Eq)]
pub struct LibraryRoot {
    pub path: String,
    pub watch_status: LibraryScanStatus,
    pub last_error: Option<String>,
}

#[derive(Debug, Clone, PartialEq, Eq)]
pub enum ThumbnailStatus {
    Missing,
    Loading,
    Ready { cache_path: String },
    Failed { message: String },
    Stale,
}

#[derive(Debug, Clone, PartialEq, Eq)]
pub struct CoverThumbnail {
    pub comic_id: i64,
    pub source_path: String,
    pub source_fingerprint: String,
    pub cache_path: String,
    pub pixel_width: u32,
    pub pixel_height: u32,
    pub status: ThumbnailStatus,
    pub last_error: Option<String>,
}

/// One comic as the library view shows it.
#[derive(Debug, Clone, PartialEq, Eq)]
pub struct LibraryGridItem {
    pub comic_id: i64,
    pub title: String,
    pub subtitle: Option<String>,
    pub path: String,
    pub source_fingerprint: String,
    pub page_count: u32,
    pub thumbnail_status: ThumbnailStatus,
    pub availability: ComicAvailability,
    pub series: Option<String>,
    pub series_key: Option<String>,
    pub folder_label: Option<String>,
    pub folder_key: Option<String>,
    pub writer: Option<String>,
    pub number: Option<String>,
    pub is_read: bool,
    pub current_page: u32,
}

/// The kinds of library shelves, in the order they are listed.
#[derive(Debug, Clone, Copy, PartialEq, Eq, Hash, PartialOrd, Ord, Structural)]
pub enum LibraryGroupKind {
    Builtin,
    Series,
    Folder,
}

impl LibraryGroupKind {
    /// Position of the kind in the shelf order.
    pub open spec fn rank(self) -> int {
        match self {
            LibraryGroupKind::Builtin => 0,
            LibraryGroupKind::Series => 1,
            LibraryGroupKind::Folder => 2,
        }
    }

    pub fn rank_of(self) -> (r: u8)
        ensures
            r == self.rank(),
    {
        match self {
            LibraryGroupKind::Builtin => 0,
            LibraryGroupKind::Series => 1,
            LibraryGroupKind::Folder => 2,
        }
    }
}

/// A shelf of the library view: a series, a folder, or a reading-progress
/// shelf, with the number of comics on it.
#[derive(Debug, Clone, PartialEq, Eq)]
pub struct LibraryGroup {
    pub kind: LibraryGroupKind,
    pub key: String,
    pub label: String,
    pub item_count: usize,
}

/// The shelf the library view is narrowed to.
#[derive(Debug, Clone, PartialEq, Eq)]
pub struct ActiveLibraryFilter {
    pub kind: LibraryGroupKind,
    pub key: String,
}

} // verus!
