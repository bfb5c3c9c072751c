use vstd::prelude::*;

use crate::library::models::{ArchivePage, ComicMetadata};
use crate::paths::{extension_of, path_extension};
use crate::text::{chars_of, eq_ignore_ascii_case, matches_ignoring_case, owned, push_chars};
use crate::vfs::ordering::{is_page_image_path, naturally_sorted, page_image_path, sort_natural};

verus! {

#[verifier::external_type_specification]
#[verifier::external_body]
pub struct ExIoError(std::io::Error);

/// Why an archive could not be listed or read.
#[derive(Debug)]
pub enum ArchiveError {
    UnsupportedFormat(String),
    BackendUnavailable(String),
    CorruptArchive(String),
    NotFound(String),
    Read(String),
    ResourceLimit(String),
    Io(std::io::Error),
}

/// A comic container that lists its page images and reads them by entry
/// path. Each archive and document format implements it.
pub trait ArchiveReader {
    /// The page images, in reading order.
    fn list_pages(&mut self) -> Result<Vec<ArchivePage>, ArchiveError>;

    /// The bytes of the page stored under `path`.
    fn read_page(&mut self, path: &str) -> Result<Vec<u8>, ArchiveError>;

    /// The bytes of any entry, or `None` when the container has no entry
    /// under `path`.
    fn read_entry(&mut self, path: &str) -> Result<Option<Vec<u8>>, ArchiveError>;

    /// Metadata carried by the document format itself. Archive formats have
    /// none of their own (a `ComicInfo.xml` entry is read with `read_entry`);
    /// document formats such as PDF and DjVu override this.
    fn document_metadata(&mut self) -> (r: Result<Option<ComicMetadata>, ArchiveError>)
        default_ensures
            r == Ok::<Option<ComicMetadata>, ArchiveError>(None),
    {
        Ok(None)
    }
}

/// `io::Error`'s `Display` text.
#[verifier::external_body]
fn io_error_text(e: &std::io::Error) -> String {
    format!("{e}")
}

/// `prefix` followed by `detail`.
pub(crate) fn prefixed(prefix: &str, detail: &str) -> (r: String)
    ensures
        r@ == prefix@ + detail@,
{
    let mut s = owned(prefix);
    let tail = chars_of(detail);
    push_chars(&mut s, &tail);
    s
}

impl ArchiveError {
    /// The text of the error as shown to the user.
    pub open spec fn text(&self) -> Option<Seq<char>> {
        match self {
            ArchiveError::UnsupportedFormat(m) => Some("unsupported archive format: "@ + m@),
            ArchiveError::BackendUnavailable(m) => Some("archive backend is unavailable: "@ + m@),
            ArchiveError::CorruptArchive(m) => Some("corrupt archive: "@ + m@),
            ArchiveError::NotFound(m) => Some("page not found: "@ + m@),
            ArchiveError::Read(m) => Some("archive read failed: "@ + m@),
            ArchiveError::ResourceLimit(m) => Some("resource limit exceeded: "@ + m@),
            ArchiveError::Io(_) => None,
        }
    }

    /// The text of the error; an I/O error is shown after `io error: `.
    pub fn message(&self) -> (r: String)
        ensures
            self.text() matches Some(t) ==> r@ == t,
    {
        match self {
            ArchiveError::UnsupportedFormat(m) => prefixed("unsupported archive format: ", m.as_str()),
            ArchiveError::BackendUnavailable(m) => prefixed("archive backend is unavailable: ", m.as_str()),
            ArchiveError::CorruptArchive(m) => prefixed("corrupt archive: ", m.as_str()),
            ArchiveError::NotFound(m) => prefixed("page not found: ", m.as_str()),
            ArchiveError::Read(m) => prefixed("archive read failed: ", m.as_str()),
            ArchiveError::ResourceLimit(m) => prefixed("resource limit exceeded: ", m.as_str()),
            ArchiveError::Io(e) => {
                let detail = io_error_text(e);
                prefixed("io error: ", detail.as_str())
            },
        }
    }
}

/// The entry paths of a page list, in order.
pub open spec fn page_paths(pages: Seq<ArchivePage>) -> Seq<String> {
    pages.map_values(|p: ArchivePage| p.path)
}

/// The entries of `paths` that are page images, in the order given.
pub open spec fn page_entries(paths: Seq<String>) -> Seq<String> {
    paths.filter(|p: String| page_image_path(p@))
}

/// Builds the page list of an archive from its entry paths: keeps the page
/// images, orders them naturally, and numbers them from zero.
pub fn build_pages(paths: Vec<String>) -> (pages: Vec<ArchivePage>)
    ensures
        page_paths(pages@).to_multiset() == page_entries(paths@).to_multiset(),
        naturally_sorted(page_paths(pages@)),
        forall|k: int| 0 <= k < pages.len() ==> (#[trigger] pages@[k]).sort_index == k,
{
    let mut kept: Vec<String> = Vec::new();
    let mut i: usize = 0;
    while i < paths.len()
        invariant
            0 <= i <= paths.len(),
            kept@ == paths@.take(i as int).filter(|p: String| page_image_path(p@)),
        decreases paths.len() - i,
    {
        let p = paths[i].clone();
        let keep = is_page_image_path(p.as_str());
        proof {
            assert(paths@.take(i + 1) =~= paths@.take(i as int).push(paths@[i as int]));
            paths@.take(i as int).lemma_filter_push(paths@[i as int], |p: String| page_image_path(p@));
        }
        if keep {
            kept.push(p);
        }
        i += 1;
    }
    proof {
        assert(paths@.take(paths.len() as int) =~= paths@);
    }
    sort_natural(&mut kept);
    let mut pages: Vec<ArchivePage> = Vec::new();
    let mut k: usize = 0;
    while k < kept.len()
        invariant
            0 <= k <= kept.len(),
            pages.len() == k,
            page_paths(pages@) == kept@.take(k as int),
            forall|j: int| 0 <= j < k ==> (#[trigger] pages@[j]).sort_index == j,
        decreases kept.len() - k,
    {
        pages.push(ArchivePage { path: kept[k].clone(), sort_index: k });
        k += 1;
        proof {
            assert(page_paths(pages@) =~= kept@.take(k as int));
        }
    }
    proof {
        assert(kept@.take(kept.len() as int) =~= kept@);
    }
    pages
}

/// The error reported for a RAR archive when no RAR backend can read it.
pub fn unsupported_rar_error(path: &str) -> (e: ArchiveError)
    ensures
        e matches ArchiveError::BackendUnavailable(m)
            && m@ == "RAR support requires a native backend; cannot read "@ + path@,
{
    let mut m = String::from_str("RAR support requires a native backend; cannot read ");
    let tail = chars_of(path);
    push_chars(&mut m, &tail);
    ArchiveError::BackendUnavailable(m)
}

} // verus!

verus! {

/// The reader family an archive path needs, chosen by its extension.
#[derive(Debug, Clone, Copy, PartialEq, Eq)]
pub enum ArchiveKind {
    Zip,
    Rar,
    Pdf,
    Djvu,
}

/// The reader family for an extension, compared ignoring ASCII case:
/// `cbz`/`zip`, `cbr`/`rar`, `pdf`, and `djvu`/`djv`.
pub open spec fn kind_for_extension(e: Seq<char>) -> Option<ArchiveKind> {
    if eq_ignore_ascii_case(e, "cbz"@) || eq_ignore_ascii_case(e, "zip"@) {
        Some(ArchiveKind::Zip)
    } else if eq_ignore_ascii_case(e, "cbr"@) || eq_ignore_ascii_case(e, "rar"@) {
        Some(ArchiveKind::Rar)
    } else if eq_ignore_ascii_case(e, "pdf"@) {
        Some(ArchiveKind::Pdf)
    } else if eq_ignore_ascii_case(e, "djvu"@) || eq_ignore_ascii_case(e, "djv"@) {
        Some(ArchiveKind::Djvu)
    } else {
        None
    }
}

/// The reader family for a path; a path without an extension has none.
pub open spec fn kind_for_path(path: Seq<char>) -> Option<ArchiveKind> {
    match path_extension(path) {
        Some(e) => kind_for_extension(e),
        None => None,
    }
}

/// Chooses the reader for an archive path by its extension, so every caller
/// resolves readers identically. Unknown extensions are refused with the path
/// in the message.
pub fn reader_kind_for_path(path: &str) -> (r: Result<ArchiveKind, ArchiveError>)
    ensures
        match kind_for_path(path@) {
            Some(k) => r == Ok::<ArchiveKind, ArchiveError>(k),
            None => r matches Err(ArchiveError::UnsupportedFormat(m)) && m@ == path@,
        },
{
    let kind = match extension_of(path) {
        None => None,
        Some(ext) => {
            let e = chars_of(ext.as_str());
            if matches_ignoring_case(&e, "cbz") || matches_ignoring_case(&e, "zip") {
                Some(ArchiveKind::Zip)
            } else if matches_ignoring_case(&e, "cbr") || matches_ignoring_case(&e, "rar") {
                Some(ArchiveKind::Rar)
            } else if matches_ignoring_case(&e, "pdf") {
                Some(ArchiveKind::Pdf)
            } else if matches_ignoring_case(&e, "djvu") || matches_ignoring_case(&e, "djv") {
                Some(ArchiveKind::Djvu)
            } else {
                None
            }
        },
    };
    match kind {
        Some(k) => Ok(k),
        None => Err(ArchiveError::UnsupportedFormat(owned(path))),
    }
}

} // verus!
