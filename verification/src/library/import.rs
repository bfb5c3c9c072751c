//! Importing comics into the content-addressed store: the hash of a
//! comic's bytes, where its copy is stored and which copy already there is
//! reused, the name a stored copy gets, and the summary of a batch import.
use vstd::prelude::*;

use crate::library::models::ComicMetadata;
use crate::library::scanner::{is_openable_archive_path, openable_extension};
use crate::library::thumbnails::is_lower_hex;
use crate::paths::{extension_of, join_path, path_extension, path_join, path_with_extension, with_extension};
use crate::text::{ascii_fold, chars_of, eq_ignore_ascii_case, matches_ignoring_case, owned, push_chars};

verus! {

/// An archive copied into the managed store, with what was read from the
/// stored copy.
#[derive(Debug, Clone, PartialEq, Eq)]
pub struct ImportedComic {
    pub source_path: String,
    pub stored_path: String,
    pub content_hash: String,
    pub page_count: u32,
    pub metadata: Option<ComicMetadata>,
    pub already_present: bool,
}

/// The outcome of importing a batch of paths: what was imported, and each
/// path that failed with its error text.
#[derive(Debug)]
pub struct ImportSummary {
    pub imported: Vec<ImportedComic>,
    pub failures: Vec<(String, String)>,
}

impl Default for ImportSummary {
    fn default() -> (r: Self)
        ensures
            r.imported@.len() == 0,
            r.failures@.len() == 0,
    {
        ImportSummary { imported: Vec::new(), failures: Vec::new() }
    }
}

impl ImportSummary {
    /// Records the outcome of importing `source`: an imported comic joins
    /// the imported list, an error joins the failures with its path.
    pub fn record(&mut self, source: String, outcome: Result<ImportedComic, String>)
        ensures
            outcome matches Ok(comic) ==> final(self).imported@ == old(self).imported@.push(comic)
                && final(self).failures@ == old(self).failures@,
            outcome matches Err(error) ==> final(self).failures@ == old(self).failures@.push((source, error))
                && final(self).imported@ == old(self).imported@,
    {
        match outcome {
            Ok(comic) => self.imported.push(comic),
            Err(error) => self.failures.push((source, error)),
        }
    }
}

/// The file name a stored copy gets: a `.zip` becomes a `.cbz` and a `.rar`
/// a `.cbr` (the extension compared in any ASCII case); other names stay.
pub open spec fn stored_name(file_name: Seq<char>) -> Seq<char> {
    match path_extension(file_name) {
        Some(e) => if eq_ignore_ascii_case(e, "zip"@) {
            path_with_extension(file_name, "cbz"@)
        } else if eq_ignore_ascii_case(e, "rar"@) {
            path_with_extension(file_name, "cbr"@)
        } else {
            file_name
        },
        None => file_name,
    }
}

/// The file name an imported archive is stored under.
pub fn stored_file_name(file_name: &str) -> (r: String)
    ensures
        r@ == stored_name(file_name@),
{
    match extension_of(file_name) {
        Some(e) => {
            let chars = chars_of(e.as_str());
            if matches_ignoring_case(&chars, "zip") {
                proof {
                    reveal_strlit("cbz");
                }
                with_extension(file_name, "cbz")
            } else if matches_ignoring_case(&chars, "rar") {
                proof {
                    reveal_strlit("cbr");
                }
                with_extension(file_name, "cbr")
            } else {
                owned(file_name)
            }
        },
        None => owned(file_name),
    }
}

/// The suffix of the staging file an import copies into: the source's
/// extension after a dot, `.cbz` when it has none.
pub open spec fn staging_suffix(source: Seq<char>) -> Seq<char> {
    match path_extension(source) {
        Some(e) => "."@ + e,
        None => ".cbz"@,
    }
}

/// The staging-file suffix for importing `source`.
pub fn import_staging_suffix(source: &str) -> (r: String)
    ensures
        r@ == staging_suffix(source@),
{
    match extension_of(source) {
        Some(e) => {
            let mut s = owned(".");
            let tail = chars_of(e.as_str());
            push_chars(&mut s, &tail);
            s
        },
        None => owned(".cbz"),
    }
}

#[verifier::external_type_specification]
#[verifier::external_body]
pub struct ExBlake3Hasher(blake3::Hasher);

/// The bytes fed to a BLAKE3 hasher so far, in order.
pub uninterp spec fn hasher_input(hasher: blake3::Hasher) -> Seq<u8>;

/// The BLAKE3 hash of `bytes`, as `Hash::to_hex` writes it.
pub uninterp spec fn blake3_hex(bytes: Seq<u8>) -> Seq<char>;

/// `blake3::Hasher::new`: a hasher fed nothing yet.
#[verifier::external_body]
fn blake3_new() -> (r: blake3::Hasher)
    ensures
        hasher_input(r) == Seq::<u8>::empty(),
{
    blake3::Hasher::new()
}

/// `blake3::Hasher::update`: feeds `bytes` after what was fed before. It
/// panics only for a hasher given an input offset, which `blake3_new` never
/// does.
#[verifier::external_body]
fn blake3_update(hasher: &mut blake3::Hasher, bytes: &[u8])
    ensures
        hasher_input(*final(hasher)) == hasher_input(*old(hasher)) + bytes@,
{
    hasher.update(bytes);
}

/// `Hasher::finalize` and `Hash::to_hex`: the hash of everything fed, as 64
/// lowercase hexadecimal digits.
#[verifier::external_body]
fn blake3_hex_of(hasher: &blake3::Hasher) -> (r: String)
    ensures
        r@ == blake3_hex(hasher_input(*hasher)),
        r@.len() == 64,
        forall|i: int| 0 <= i < r@.len() ==> is_lower_hex(#[trigger] r@[i]),
{
    hasher.finalize().to_hex().to_string()
}

/// Hashes a comic's bytes as they are read, for the content-addressed
/// store.
pub struct ContentHasher {
    hasher: blake3::Hasher,
}

impl ContentHasher {
    /// The bytes fed so far.
    pub closed spec fn fed(&self) -> Seq<u8> {
        hasher_input(self.hasher)
    }

    /// A hasher fed nothing yet.
    pub fn new() -> (r: Self)
        ensures
            r.fed() == Seq::<u8>::empty(),
    {
        ContentHasher { hasher: blake3_new() }
    }

    /// Feeds the next bytes read.
    pub fn update(&mut self, bytes: &[u8])
        ensures
            final(self).fed() == old(self).fed() + bytes@,
    {
        blake3_update(&mut self.hasher, bytes);
    }

    /// The content hash of everything fed: 64 lowercase hexadecimal digits.
    pub fn hex(&self) -> (r: String)
        ensures
            r@ == blake3_hex(self.fed()),
            r@.len() == 64,
            forall|i: int| 0 <= i < r@.len() ==> is_lower_hex(#[trigger] r@[i]),
    {
        blake3_hex_of(&self.hasher)
    }
}

/// The content hash of bytes held whole.
pub fn content_hash(bytes: &[u8]) -> (r: String)
    ensures
        r@ == blake3_hex(bytes@),
        r@.len() == 64,
{
    let mut hasher = ContentHasher::new();
    hasher.update(bytes);
    proof {
        assert(Seq::<u8>::empty() + bytes@ =~= bytes@);
    }
    hasher.hex()
}

/// Whether a file found in the store folder of a hash is a copy to reuse:
/// a file of a format an import accepts whose own hash is the hash sought.
pub open spec fn reusable(path: Seq<char>, is_file: bool, file_hash: Option<Seq<char>>, content_hash: Seq<char>) -> bool {
    &&& is_file
    &&& (match path_extension(path) {
        Some(e) => openable_extension(e),
        None => false,
    })
    &&& file_hash == Some(content_hash)
}

/// Decides whether the file at `path` in a hash's store folder is reused;
/// `file_hash` is its content hash, when it could be read.
pub fn is_reusable_copy(path: &str, is_file: bool, file_hash: Option<&str>, content_hash: &str) -> (r: bool)
    ensures
        r == reusable(
            path@,
            is_file,
            match file_hash {
                Some(h) => Some(h@),
                None => None,
            },
            content_hash@,
        ),
{
    if !is_file || !is_openable_archive_path(path) {
        return false;
    }
    match file_hash {
        Some(h) => {
            let a = chars_of(h);
            let b = chars_of(content_hash);
            crate::text::chars_eq(&a, &b)
        },
        None => false,
    }
}

/// Where an import keeps its copy: a reusable copy already in the store is
/// kept; otherwise the copy goes in the folder named by the content hash,
/// under its stored name.
pub open spec fn import_destination(
    store_root: Seq<char>,
    file_name: Seq<char>,
    content_hash: Seq<char>,
    existing: Option<Seq<char>>,
) -> Seq<char> {
    match existing {
        Some(p) => p,
        None => path_join(path_join(store_root, content_hash), stored_name(file_name)),
    }
}

/// The path an import stores its copy at, and whether that copy was already
/// present.
pub fn import_target(store_root: &str, file_name: &str, content_hash: &str, existing: Option<String>) -> (r: (
    String,
    bool,
))
    ensures
        r.1 == existing is Some,
        r.0@ == import_destination(
            store_root@,
            file_name@,
            content_hash@,
            match existing {
                Some(p) => Some(p@),
                None => None,
            },
        ),
{
    match existing {
        Some(p) => (p, true),
        None => {
            let folder = join_path(store_root, content_hash);
            let name = stored_file_name(file_name);
            (join_path(folder.as_str(), name.as_str()), false)
        },
    }
}

/// A stored copy keeps its file name, except that a `.zip` (in any ASCII
/// case) is stored as a `.cbz` and a `.rar` as a `.cbr`.
pub proof fn lemma_stored_names(file_name: Seq<char>)
    ensures
        path_extension(file_name) matches Some(e) && eq_ignore_ascii_case(e, "zip"@) ==> stored_name(file_name)
            == path_with_extension(file_name, "cbz"@),
        path_extension(file_name) matches Some(e) && eq_ignore_ascii_case(e, "rar"@) ==> stored_name(file_name)
            == path_with_extension(file_name, "cbr"@),
        path_extension(file_name) matches Some(e) && !eq_ignore_ascii_case(e, "zip"@) && !eq_ignore_ascii_case(
            e,
            "rar"@,
        ) ==> stored_name(file_name) == file_name,
        path_extension(file_name) is None ==> stored_name(file_name) == file_name,
{
    if let Some(e) = path_extension(file_name) {
        if eq_ignore_ascii_case(e, "rar"@) {
            reveal_strlit("rar");
            reveal_strlit("zip");
            assert(ascii_fold(e[0]) == ascii_fold("rar"@[0]));
            assert(ascii_fold("rar"@[0]) != ascii_fold("zip"@[0]));
            assert(!eq_ignore_ascii_case(e, "zip"@));
        }
    }
}

} // verus!
