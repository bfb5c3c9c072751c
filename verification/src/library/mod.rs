//! The comic library: records, metadata clean-up, grouping keys, thumbnails
//! and change batches.
pub mod import;
pub mod metadata;
pub mod models;
pub mod scanner;
pub mod service;
pub mod thumbnails;
pub mod watcher;

pub use metadata::{document_metadata, empty_to_none, metadata_from_fields, MetadataError};
pub use models::{
    ActiveLibraryFilter, ArchivePage, Bookmark, Comic, ComicAvailability, ComicInput, ComicMetadata,
    ComicMetadataDisplay, CoverThumbnail, Folder, LibraryComicRow, LibraryGridItem, LibraryGroup,
    LibraryGroupKind, LibraryRoot, LibraryScanStatus, Progress, ThumbnailStatus,
};
pub use scanner::{is_openable_archive_path, is_supported_archive_path, ScannedComic};
pub use service::{metadata_subtitle, normalize_group_key};
pub use thumbnails::{
    cache_key_for_source, cache_path_for_source, cover_request_for_pages, is_thumbnail_stale,
    thumbnail_target_size, ThumbnailCacheEntry, ThumbnailRequest, ThumbnailResult,
    MAX_THUMBNAIL_HEIGHT, MAX_THUMBNAIL_WIDTH,
};
pub use watcher::{coalesce_watch_events, WatchEventBatch, WatchStatus};
pub use import::{stored_file_name, ImportSummary, ImportedComic};
