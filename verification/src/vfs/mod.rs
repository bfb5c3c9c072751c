//! Archive-facing logic: which entries are pages, in what order, the budgets
//! that bound what a reader may allocate, and which reader a path needs.
pub mod archive;
pub mod limits;
pub mod ordering;
pub mod pdf;

pub use archive::{build_pages, reader_kind_for_path, unsupported_rar_error, ArchiveError, ArchiveKind, ArchiveReader};
pub use ordering::{is_hidden_metadata_path, is_page_image_path, sort_natural};
pub use pdf::{DjvuArchiveReader, PdfArchiveReader};
