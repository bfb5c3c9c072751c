use vstd::prelude::*;

use crate::library::models::ComicMetadata;
use crate::paths::{extension_of, file_name_of, path_extension, path_file_name};
use crate::text::{chars_eq, chars_of, eq_ignore_ascii_case, matches_ignoring_case};

verus! {

/// One archive found while scanning a library root.
#[derive(Debug, Clone, PartialEq, Eq)]
pub struct ScannedComic {
    pub path: String,
    pub fingerprint: String,
    pub page_count: u32,
    pub metadata: Option<ComicMetadata>,
}

/// Extensions a library scan picks up (ASCII case ignored): `cbz`, `cbr`,
/// `pdf`, `djvu`, `djv`.
pub open spec fn supported_extension(e: Seq<char>) -> bool {
    ||| eq_ignore_ascii_case(e, "cbz"@)
    ||| eq_ignore_ascii_case(e, "cbr"@)
    ||| eq_ignore_ascii_case(e, "pdf"@)
    ||| eq_ignore_ascii_case(e, "djvu"@)
    ||| eq_ignore_ascii_case(e, "djv"@)
}

/// Extensions an explicit import accepts: the scanned ones plus plain `zip`
/// and `rar`.
pub open spec fn openable_extension(e: Seq<char>) -> bool {
    supported_extension(e) || eq_ignore_ascii_case(e, "zip"@) || eq_ignore_ascii_case(e, "rar"@)
}

fn extension_chars(path: &str) -> (r: Option<Vec<char>>)
    ensures
        match r {
            Some(e) => path_extension(path@) == Some(e@),
            None => path_extension(path@) is None,
        },
{
    match extension_of(path) {
        None => None,
        Some(ext) => Some(chars_of(ext.as_str())),
    }
}

/// Whether a library scan treats `path` as a comic.
pub fn is_supported_archive_path(path: &str) -> (r: bool)
    ensures
        r == match path_extension(path@) {
            Some(e) => supported_extension(e),
            None => false,
        },
{
    match extension_chars(path) {
        None => false,
        Some(e) => matches_ignoring_case(&e, "cbz") || matches_ignoring_case(&e, "cbr")
            || matches_ignoring_case(&e, "pdf") || matches_ignoring_case(&e, "djvu")
            || matches_ignoring_case(&e, "djv"),
    }
}

/// Whether an explicit import accepts `path`.
pub fn is_openable_archive_path(path: &str) -> (r: bool)
    ensures
        r == match path_extension(path@) {
            Some(e) => openable_extension(e),
            None => false,
        },
{
    match extension_chars(path) {
        None => false,
        Some(e) => matches_ignoring_case(&e, "cbz") || matches_ignoring_case(&e, "cbr")
            || matches_ignoring_case(&e, "pdf") || matches_ignoring_case(&e, "djvu")
            || matches_ignoring_case(&e, "djv") || matches_ignoring_case(&e, "zip")
            || matches_ignoring_case(&e, "rar"),
    }
}

/// Deepest directory nesting a library walk enters.
pub const MAX_DISCOVERY_DEPTH: usize = 32;

/// What a library walk does with one directory entry.
#[derive(Debug, Clone, Copy, PartialEq, Eq, Structural)]
pub enum DiscoveryStep {
    /// Passed over: a dot-file, a `__MACOSX` folder, a symbolic link (which
    /// could lead back to an ancestor), or a file of no comic format.
    Skip,
    /// A folder to walk into.
    Descend,
    /// A comic file to collect.
    Collect,
}

/// Whether a walk `depth` folders below the root reads its folder.
pub fn walks_at_depth(depth: usize) -> (r: bool)
    ensures
        r == (depth < MAX_DISCOVERY_DEPTH),
{
    depth < MAX_DISCOVERY_DEPTH
}

/// Whether an entry is hidden from a library walk by its name: a dot-file
/// or a `__MACOSX` folder.
pub open spec fn hidden_entry(path: Seq<char>) -> bool {
    match path_file_name(path) {
        Some(name) => (name.len() > 0 && name[0] == '.') || name == "__MACOSX"@,
        None => false,
    }
}

/// Whether a library walk passes over the entry at `path` by its name.
pub fn is_hidden_entry(path: &str) -> (r: bool)
    ensures
        r == hidden_entry(path@),
{
    match file_name_of(path) {
        Some(name) => {
            let chars = chars_of(name.as_str());
            let macosx = chars_of("__MACOSX");
            (chars.len() > 0 && chars[0] == '.') || chars_eq(&chars, &macosx)
        },
        None => false,
    }
}

/// What a library walk does with the entry at `path`.
pub open spec fn discovery_step_of(path: Seq<char>, is_symlink: bool, is_dir: bool) -> DiscoveryStep {
    if hidden_entry(path) || is_symlink {
        DiscoveryStep::Skip
    } else if is_dir {
        DiscoveryStep::Descend
    } else if (match path_extension(path) {
        Some(e) => supported_extension(e),
        None => false,
    }) {
        DiscoveryStep::Collect
    } else {
        DiscoveryStep::Skip
    }
}

/// Decides what a library walk does with the entry at `path`, given whether
/// it is a symbolic link and whether it is a folder.
pub fn discovery_step(path: &str, is_symlink: bool, is_dir: bool) -> (r: DiscoveryStep)
    ensures
        r == discovery_step_of(path@, is_symlink, is_dir),
{
    let hidden = is_hidden_entry(path);
    if hidden || is_symlink {
        DiscoveryStep::Skip
    } else if is_dir {
        DiscoveryStep::Descend
    } else if is_supported_archive_path(path) {
        DiscoveryStep::Collect
    } else {
        DiscoveryStep::Skip
    }
}

/// The formats a library scan picks up, and those an explicit import also
/// accepts: `cbz`, `cbr`, `pdf`, `djvu` and `djv` (ignoring ASCII case) are
/// scanned; an import accepts those and plain `zip` and `rar` too.
pub proof fn lemma_scanned_formats(e: Seq<char>)
    ensures
        supported_extension(e) <==> {
            ||| eq_ignore_ascii_case(e, "cbz"@)
            ||| eq_ignore_ascii_case(e, "cbr"@)
            ||| eq_ignore_ascii_case(e, "pdf"@)
            ||| eq_ignore_ascii_case(e, "djvu"@)
            ||| eq_ignore_ascii_case(e, "djv"@)
        },
        openable_extension(e) <==> {
            ||| supported_extension(e)
            ||| eq_ignore_ascii_case(e, "zip"@)
            ||| eq_ignore_ascii_case(e, "rar"@)
        },
{
}

/// A library walk collects every comic a scan supports and nothing else:
/// a visible file that is not a link is collected exactly when its
/// extension is a scanned comic format; visible folders that are not links
/// are walked into; hidden entries and links are passed over.
pub proof fn lemma_walk_collects_supported(path: Seq<char>, is_symlink: bool, is_dir: bool)
    ensures
        !hidden_entry(path) && !is_symlink && !is_dir ==> (discovery_step_of(path, is_symlink, is_dir)
            == DiscoveryStep::Collect <==> match path_extension(path) {
            Some(e) => {
                ||| eq_ignore_ascii_case(e, "cbz"@)
                ||| eq_ignore_ascii_case(e, "cbr"@)
                ||| eq_ignore_ascii_case(e, "pdf"@)
                ||| eq_ignore_ascii_case(e, "djvu"@)
                ||| eq_ignore_ascii_case(e, "djv"@)
            },
            None => false,
        }),
        !hidden_entry(path) && !is_symlink && !is_dir && discovery_step_of(path, is_symlink, is_dir)
            != DiscoveryStep::Collect ==> discovery_step_of(path, is_symlink, is_dir) == DiscoveryStep::Skip,
        !hidden_entry(path) && !is_symlink && is_dir ==> discovery_step_of(path, is_symlink, is_dir)
            == DiscoveryStep::Descend,
        hidden_entry(path) || is_symlink ==> discovery_step_of(path, is_symlink, is_dir) == DiscoveryStep::Skip,
        (path_file_name(path) matches Some(name) && name.len() > 0 && name[0] == '.') ==> hidden_entry(path),
        path_file_name(path) == Some("__MACOSX"@) ==> hidden_entry(path),
{
}

} // verus!
