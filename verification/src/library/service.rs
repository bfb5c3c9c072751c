//! How stored library records become what the library view shows: cleaned
//! metadata text, subtitles, series keys, folder shelves, grid items, and
//! the choices the service makes between database calls.
use vstd::prelude::*;

use crate::library::models::{
    Comic, ComicAvailability, ComicMetadataDisplay, LibraryComicRow, LibraryGridItem, Progress, ThumbnailStatus,
};
use crate::library::scanner::ScannedComic;
use crate::paths::{file_name_of, file_stem_of, parent_of, path_file_name, path_file_stem, path_parent};
use crate::text::{
    chars_of, collapse_whitespace, join, lowercase, owned, push_chars, string_from, to_lowercase, trim, trimmed,
    words,
};

verus! {

/// A text field after clean-up: trimmed, and absent when nothing but
/// whitespace is left.
pub open spec fn cleaned(value: Option<String>) -> Option<Seq<char>> {
    match value {
        Some(v) => if trimmed(v@).len() == 0 {
            None
        } else {
            Some(trimmed(v@))
        },
        None => None,
    }
}

/// The view of an optional string.
pub open spec fn opt_view(value: Option<String>) -> Option<Seq<char>> {
    match value {
        Some(v) => Some(v@),
        None => None,
    }
}

pub fn clean_string(value: Option<String>) -> (r: Option<String>)
    ensures
        opt_view(r) == cleaned(value),
{
    match value {
        None => None,
        Some(v) => {
            let t = trim(v.as_str());
            if t.as_str().is_empty() {
                None
            } else {
                Some(t)
            }
        },
    }
}

/// The subtitle of a comic: `Issue #<number> - <creator>`, either half alone
/// when the other is missing, or nothing. The creator is the writer, or the
/// penciller when there is no writer; all fields are cleaned first.
pub open spec fn subtitle_of(m: ComicMetadataDisplay) -> Option<Seq<char>> {
    let number = cleaned(m.number);
    let creator = match cleaned(m.writer) {
        Some(w) => Some(w),
        None => cleaned(m.penciller),
    };
    match (number, creator) {
        (Some(n), Some(c)) => Some("Issue #"@ + n + " - "@ + c),
        (Some(n), None) => Some("Issue #"@ + n),
        (None, Some(c)) => Some(c),
        (None, None) => None,
    }
}

pub fn metadata_subtitle(metadata: &ComicMetadataDisplay) -> (r: Option<String>)
    ensures
        opt_view(r) == subtitle_of(*metadata),
{
    let number = clean_string(metadata.number.clone());
    let creator = match clean_string(metadata.writer.clone()) {
        Some(w) => Some(w),
        None => clean_string(metadata.penciller.clone()),
    };
    match (number, creator) {
        (Some(n), Some(c)) => {
            let mut s = owned("Issue #");
            let nv = chars_of(n.as_str());
            push_chars(&mut s, &nv);
            let sep = chars_of(" - ");
            push_chars(&mut s, &sep);
            let cv = chars_of(c.as_str());
            push_chars(&mut s, &cv);
            Some(s)
        },
        (Some(n), None) => {
            let mut s = owned("Issue #");
            let nv = chars_of(n.as_str());
            push_chars(&mut s, &nv);
            Some(s)
        },
        (None, Some(c)) => Some(c),
        (None, None) => None,
    }
}

/// The key a series name is grouped by: its words joined by single spaces,
/// lowercased.
pub open spec fn group_key(value: Seq<char>) -> Seq<char> {
    lowercase(join(words(value), seq![' ']))
}

pub fn normalize_group_key(value: &str) -> (r: String)
    ensures
        r@ == group_key(value@),
{
    let chars = chars_of(value);
    let collapsed = collapse_whitespace(&chars);
    let joined = string_from(&collapsed);
    to_lowercase(joined.as_str())
}

/// The folder shelf of a stored path: keyed by its parent directory
/// (trimmed), labelled by that directory's own name (trimmed) or, when it has
/// no usable name, by the key. A path whose parent is empty has none.
pub open spec fn folder_of(path: Seq<char>) -> Option<(Seq<char>, Seq<char>)> {
    match path_parent(path) {
        None => None,
        Some(parent) => {
            let key = trimmed(parent);
            if key.len() == 0 {
                None
            } else {
                let label = match path_file_name(parent) {
                    Some(name) => if trimmed(name).len() == 0 {
                        key
                    } else {
                        trimmed(name)
                    },
                    None => key,
                };
                Some((label, key))
            }
        },
    }
}

pub fn folder_parts(path: &str) -> (r: Option<(String, String)>)
    ensures
        match r {
            Some((label, key)) => folder_of(path@) == Some((label@, key@)),
            None => folder_of(path@) is None,
        },
{
    let parent = match parent_of(path) {
        Some(p) => p,
        None => {
            return None;
        },
    };
    let key = trim(parent.as_str());
    if key.as_str().is_empty() {
        return None;
    }
    let label = match file_name_of(parent.as_str()) {
        Some(name) => {
            let t = trim(name.as_str());
            if t.as_str().is_empty() {
                key.clone()
            } else {
                t
            }
        },
        None => key.clone(),
    };
    Some((label, key))
}

/// The grid item of a stored comic row: titled by the file stem (the whole
/// path when there is none), with the metadata subtitle, the cleaned series
/// and its group key, the folder shelf, the cleaned writer and number, a
/// ready thumbnail when one is stored, and the reading progress given.
pub open spec fn row_item_ok(item: LibraryGridItem, row: LibraryComicRow, is_read: bool, current_page: u32) -> bool {
    let comic = row.comic;
    &&& item.comic_id == comic.id
    &&& item.title@ == match path_file_stem(comic.path@) {
        Some(stem) => stem,
        None => comic.path@,
    }
    &&& opt_view(item.subtitle) == subtitle_of(row.metadata)
    &&& item.path@ == comic.path@
    &&& item.source_fingerprint@ == comic.hash@
    &&& item.page_count == comic.page_count
    &&& match comic.thumbnail_key {
        Some(k) => item.thumbnail_status == ThumbnailStatus::Ready { cache_path: k },
        None => item.thumbnail_status == ThumbnailStatus::Missing,
    }
    &&& item.availability == comic.availability
    &&& opt_view(item.series) == cleaned(row.metadata.series)
    &&& match cleaned(row.metadata.series) {
        Some(s) => item.series_key is Some && item.series_key->0@ == group_key(s),
        None => item.series_key is None,
    }
    &&& match folder_of(comic.path@) {
        Some((label, key)) => item.folder_label is Some && item.folder_label->0@ == label && item.folder_key is Some
            && item.folder_key->0@ == key,
        None => item.folder_label is None && item.folder_key is None,
    }
    &&& opt_view(item.writer) == cleaned(row.metadata.writer)
    &&& opt_view(item.number) == cleaned(row.metadata.number)
    &&& item.is_read == is_read
    &&& item.current_page == current_page
}

pub fn grid_item_from_row(row: LibraryComicRow, is_read: bool, current_page: u32) -> (item: LibraryGridItem)
    ensures
        row_item_ok(item, row, is_read, current_page),
{
    let ghost given = row;
    let subtitle = metadata_subtitle(&row.metadata);
    let LibraryComicRow { comic, metadata } = row;
    let folder = folder_parts(comic.path.as_str());
    let series = clean_string(metadata.series);
    let series_key = match &series {
        Some(s) => Some(normalize_group_key(s.as_str())),
        None => None,
    };
    let title = match file_stem_of(comic.path.as_str()) {
        Some(stem) => stem,
        None => comic.path.clone(),
    };
    let thumbnail_status = match comic.thumbnail_key {
        Some(cache_path) => ThumbnailStatus::Ready { cache_path },
        None => ThumbnailStatus::Missing,
    };
    let (folder_label, folder_key) = match folder {
        Some((label, key)) => (Some(label), Some(key)),
        None => (None, None),
    };
    LibraryGridItem {
        comic_id: comic.id,
        title,
        subtitle,
        path: comic.path,
        source_fingerprint: comic.hash,
        page_count: comic.page_count,
        thumbnail_status,
        availability: comic.availability,
        series,
        series_key,
        folder_label,
        folder_key,
        writer: clean_string(metadata.writer),
        number: clean_string(metadata.number),
        is_read,
        current_page,
    }
}

/// The position of the comic last read: among the candidates, the latest
/// progress update, the last of them when several tie.
pub open spec fn latest_index(candidates: Seq<(Comic, Progress)>) -> int
    decreases candidates.len(),
{
    if candidates.len() <= 1 {
        0
    } else {
        let prev = latest_index(candidates.drop_last());
        if candidates.last().1.updated_at >= candidates[prev].1.updated_at {
            candidates.len() - 1
        } else {
            prev
        }
    }
}

proof fn lemma_latest_index(candidates: Seq<(Comic, Progress)>)
    requires
        candidates.len() > 0,
    ensures
        0 <= latest_index(candidates) < candidates.len(),
        forall|j: int|
            0 <= j < candidates.len() ==> #[trigger] candidates[j].1.updated_at <= candidates[latest_index(
                candidates,
            )].1.updated_at,
        forall|j: int|
            latest_index(candidates) < j < candidates.len() ==> #[trigger] candidates[j].1.updated_at
                < candidates[latest_index(candidates)].1.updated_at,
    decreases candidates.len(),
{
    if candidates.len() > 1 {
        let d = candidates.drop_last();
        lemma_latest_index(d);
        assert forall|j: int| 0 <= j < d.len() implies #[trigger] candidates[j] == d[j] by {}
    }
}

/// Picks the comic read most recently from available comics paired with
/// their saved progress: the one whose progress was updated last, and among
/// equally recent ones the last in the list.
pub fn last_read_candidate(candidates: Vec<(Comic, Progress)>) -> (r: Option<(Comic, Progress)>)
    ensures
        candidates@.len() == 0 ==> r is None,
        candidates@.len() > 0 ==> r == Some(candidates@[latest_index(candidates@)]),
{
    let n = candidates.len();
    if n == 0 {
        return None;
    }
    let mut best: usize = 0;
    let mut i: usize = 1;
    while i < n
        invariant
            n == candidates.len(),
            1 <= i <= n,
            best == latest_index(candidates@.take(i as int)),
            best < i,
        decreases n - i,
    {
        proof {
            assert(candidates@.take(i + 1).drop_last() =~= candidates@.take(i as int));
            lemma_latest_index(candidates@.take(i as int));
            assert(candidates@.take(i as int)[best as int] == candidates@[best as int]);
        }
        if candidates[i].1.updated_at >= candidates[best].1.updated_at {
            best = i;
        }
        i += 1;
    }
    proof {
        assert(candidates@.take(n as int) =~= candidates@);
    }
    let mut candidates = candidates;
    Some(candidates.swap_remove(best))
}

/// Whether a comic counts for resuming: it is available.
pub open spec fn resumable(comic: Comic) -> bool {
    comic.availability == ComicAvailability::Available
}

/// The stored comics a scan no longer found, which become unavailable.
pub open spec fn missing_from_scan(comic: Comic, scanned: Seq<ScannedComic>) -> bool {
    !exists|j: int| 0 <= j < scanned.len() && (#[trigger] scanned[j]).path@ == comic.path@
}

/// The paths of the stored comics that a scan did not find, in stored order.
pub fn paths_missing_from_scan(stored: &Vec<Comic>, scanned: &[ScannedComic]) -> (r: Vec<String>)
    ensures
        r@.map_values(|s: String| s@) == stored@.filter(|c: Comic| missing_from_scan(c, scanned@)).map_values(
            |c: Comic| c.path@,
        ),
{
    let ghost pred = |c: Comic| missing_from_scan(c, scanned@);
    let mut r: Vec<String> = Vec::new();
    let mut i: usize = 0;
    while i < stored.len()
        invariant
            0 <= i <= stored.len(),
            forall|c: Comic| #[trigger] pred(c) == missing_from_scan(c, scanned@),
            r@.map_values(|s: String| s@) == stored@.take(i as int).filter(pred).map_values(|c: Comic| c.path@),
        decreases stored.len() - i,
    {
        let c = &stored[i];
        let mut found = false;
        let mut j: usize = 0;
        while j < scanned.len()
            invariant
                0 <= j <= scanned@.len(),
                found == exists|k: int| 0 <= k < j && (#[trigger] scanned@[k]).path@ == c.path@,
            decreases scanned@.len() - j,
        {
            if scanned[j].path == c.path {
                found = true;
            }
            j += 1;
        }
        proof {
            assert(stored@.take(i + 1) =~= stored@.take(i as int).push(*c));
            stored@.take(i as int).lemma_filter_push(*c, pred);
            assert(pred(*c) == !found);
        }
        let ghost before = r@;
        if !found {
            r.push(c.path.clone());
            proof {
                assert(r@.map_values(|s: String| s@) =~= before.map_values(|s: String| s@).push(c.path@));
            }
        }
        proof {
            let f = stored@.take(i + 1).filter(pred);
            assert(f.map_values(|x: Comic| x.path@) =~= if pred(*c) {
                stored@.take(i as int).filter(pred).map_values(|x: Comic| x.path@).push(c.path@)
            } else {
                stored@.take(i as int).filter(pred).map_values(|x: Comic| x.path@)
            });
        }
        i += 1;
    }
    proof {
        assert(stored@.take(stored.len() as int) =~= stored@);
    }
    r
}

/// The metadata row that a new link leaves behind, to be deleted when
/// nothing else refers to it: the previous one, when it differs from the new.
pub fn replaced_metadata_id(previous: Option<i64>, current: Option<i64>) -> (r: Option<i64>)
    ensures
        r == match previous {
            Some(p) => if current == Some(p) {
                None
            } else {
                Some(p)
            },
            None => None,
        },
{
    match previous {
        Some(p) => match current {
            Some(c) => if c == p {
                None
            } else {
                Some(p)
            },
            None => Some(p),
        },
        None => None,
    }
}

} // verus!
