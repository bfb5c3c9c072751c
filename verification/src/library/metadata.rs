//! Comic metadata read from an archive's ComicInfo.xml: field clean-up and
//! the errors met while reading it.
use vstd::prelude::*;

use crate::library::models::ComicMetadata;
use crate::library::service::{clean_string, cleaned, opt_view};
use crate::vfs::archive::{prefixed, ArchiveError};

verus! {

/// The names ComicInfo.xml is looked up under, in order.
pub const COMIC_INFO_ENTRY_NAMES: [&'static str; 2] = ["ComicInfo.xml", "comicinfo.xml"];

/// Why an archive's metadata could not be read.
#[derive(Debug)]
pub enum MetadataError {
    Malformed(String),
    Archive(ArchiveError),
}

impl MetadataError {
    /// The text of the error as shown to the user.
    pub fn message(&self) -> (r: String)
        ensures
            self matches MetadataError::Malformed(m) ==> r@ == "malformed ComicInfo.xml: "@ + m@,
            self matches MetadataError::Archive(e) ==> (e.text() matches Some(t) ==> r@
                == "archive entry read failed: "@ + t),
    {
        match self {
            MetadataError::Malformed(m) => prefixed("malformed ComicInfo.xml: ", m.as_str()),
            MetadataError::Archive(e) => {
                let inner = e.message();
                prefixed("archive entry read failed: ", inner.as_str())
            },
        }
    }
}

/// A ComicInfo field: trimmed, and absent when blank.
pub fn empty_to_none(value: Option<String>) -> (r: Option<String>)
    ensures
        opt_view(r) == cleaned(value),
{
    clean_string(value)
}

/// The metadata of a parsed ComicInfo.xml: not stored yet, each field
/// trimmed and dropped when blank.
pub fn metadata_from_fields(
    series: Option<String>,
    title: Option<String>,
    number: Option<String>,
    writer: Option<String>,
    penciller: Option<String>,
) -> (r: ComicMetadata)
    ensures
        r.id is None,
        opt_view(r.series) == cleaned(series),
        opt_view(r.title) == cleaned(title),
        opt_view(r.number) == cleaned(number),
        opt_view(r.writer) == cleaned(writer),
        opt_view(r.penciller) == cleaned(penciller),
{
    ComicMetadata {
        id: None,
        series: empty_to_none(series),
        title: empty_to_none(title),
        number: empty_to_none(number),
        writer: empty_to_none(writer),
        penciller: empty_to_none(penciller),
    }
}

/// The metadata a PDF or DjVu document carries about itself: its title, and
/// its author as the writer, each trimmed. A document describes itself, not
/// an issue of a series, so series, number and penciller stay empty; when
/// both title and author are blank there is no metadata at all.
pub fn document_metadata(title: Option<String>, author: Option<String>) -> (r: Option<ComicMetadata>)
    ensures
        (cleaned(title) is None && cleaned(author) is None) ==> r is None,
        !(cleaned(title) is None && cleaned(author) is None) ==> (r matches Some(m) && {
            &&& m.id is None
            &&& m.series is None
            &&& m.number is None
            &&& m.penciller is None
            &&& opt_view(m.title) == cleaned(title)
            &&& opt_view(m.writer) == cleaned(author)
        }),
{
    let title = empty_to_none(title);
    let writer = empty_to_none(author);
    if title.is_none() && writer.is_none() {
        return None;
    }
    Some(ComicMetadata { id: None, series: None, title, number: None, writer, penciller: None })
}

} // verus!
