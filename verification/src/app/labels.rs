//! Text the library screen shows: import summaries, shelf labels, shortened
//! titles, the empty-library message, and grid items for scanned comics.
use vstd::prelude::*;

use crate::app::browse::LibrarySortOption;
use crate::library::models::{ActiveLibraryFilter, ComicAvailability, LibraryGridItem, LibraryGroup, LibraryGroupKind, ThumbnailStatus};
use crate::library::scanner::ScannedComic;
use crate::paths::{file_name_of, file_stem_of, parent_of, path_file_name, path_file_stem, path_parent};
use crate::text::{chars_eq, chars_of, decimal, decimal_chars, owned, push_chars, string_from};

verus! {

/// The import summary: the error when the import failed, otherwise how many
/// comics were added, then how many were already present and how many
/// failed when there were any.
pub open spec fn import_summary(added: nat, already_present: nat, failed: nat, error: Option<String>) -> Seq<char> {
    match error {
        Some(e) => e@,
        None => {
            let first = "Added "@ + decimal(added) + " comic"@ + if added == 1 {
                Seq::<char>::empty()
            } else {
                "s"@
            };
            let second = if already_present > 0 {
                ", "@ + decimal(already_present) + " already present"@
            } else {
                Seq::<char>::empty()
            };
            let third = if failed > 0 {
                ", "@ + decimal(failed) + " failed"@
            } else {
                Seq::<char>::empty()
            };
            first + second + third
        },
    }
}

/// Appends the characters of `lit` to `s`.
fn push_str_chars(s: &mut String, lit: &str)
    ensures
        final(s)@ == old(s)@ + lit@,
{
    let v = chars_of(lit);
    push_chars(s, &v);
}

/// Appends the decimal digits of `n` to `s`.
fn push_decimal(s: &mut String, n: usize)
    ensures
        final(s)@ == old(s)@ + decimal(n as nat),
{
    let v = decimal_chars(n as u64);
    push_chars(s, &v);
}

pub fn import_status_text(added: usize, already_present: usize, failed: usize, error: Option<String>) -> (r: String)
    ensures
        r@ == import_summary(added as nat, already_present as nat, failed as nat, error),
{
    if let Some(error) = error {
        return error;
    }
    let mut s = String::new();
    push_str_chars(&mut s, "Added ");
    push_decimal(&mut s, added);
    push_str_chars(&mut s, " comic");
    if added != 1 {
        push_str_chars(&mut s, "s");
    }
    let ghost first = s@;
    if already_present > 0 {
        push_str_chars(&mut s, ", ");
        push_decimal(&mut s, already_present);
        push_str_chars(&mut s, " already present");
    }
    let ghost second = s@;
    if failed > 0 {
        push_str_chars(&mut s, ", ");
        push_decimal(&mut s, failed);
        push_str_chars(&mut s, " failed");
    }
    proof {
        let e = Seq::<char>::empty();
        if added == 1 {
            assert(first =~= "Added "@ + decimal(added as nat) + " comic"@ + e);
        }
        if already_present > 0 {
            assert(second =~= first + (", "@ + decimal(already_present as nat) + " already present"@));
        } else {
            assert(second =~= first + e);
        }
        if failed > 0 {
            assert(s@ =~= second + (", "@ + decimal(failed as nat) + " failed"@));
        } else {
            assert(s@ =~= second + e);
        }
    }
    s
}

/// The word a shelf kind is introduced with.
pub open spec fn kind_prefix(kind: LibraryGroupKind) -> Seq<char> {
    match kind {
        LibraryGroupKind::Builtin => "Shelf"@,
        LibraryGroupKind::Series => "Series"@,
        LibraryGroupKind::Folder => "Folder"@,
    }
}

/// `"<kind>: <label> (<count>)"`.
pub open spec fn shelf_caption(g: LibraryGroup) -> Seq<char> {
    kind_prefix(g.kind) + ": "@ + g.label@ + " ("@ + decimal(g.item_count as nat) + ")"@
}

pub fn group_label(group: &LibraryGroup) -> (r: String)
    ensures
        r@ == shelf_caption(*group),
{
    let prefix = match group.kind {
        LibraryGroupKind::Builtin => "Shelf",
        LibraryGroupKind::Series => "Series",
        LibraryGroupKind::Folder => "Folder",
    };
    let mut s = owned(prefix);
    push_str_chars(&mut s, ": ");
    push_str_chars(&mut s, group.label.as_str());
    push_str_chars(&mut s, " (");
    push_decimal(&mut s, group.item_count);
    push_str_chars(&mut s, ")");
    proof {
        assert(s@ =~= shelf_caption(*group));
    }
    s
}

/// Group `g` is the shelf `filter` narrows to.
pub open spec fn is_filtered_group(g: LibraryGroup, filter: ActiveLibraryFilter) -> bool {
    g.kind == filter.kind && g.key@ == filter.key@
}

/// The index of the first group the filter selects, if any.
pub open spec fn first_filtered(groups: Seq<LibraryGroup>, filter: ActiveLibraryFilter, i: int) -> bool {
    &&& 0 <= i < groups.len()
    &&& is_filtered_group(groups[i], filter)
    &&& forall|j: int| 0 <= j < i ==> !is_filtered_group(#[trigger] groups[j], filter)
}

/// The caption of the shelf picker: the caption of the active filter's
/// shelf, or `All comics` when no filter is set or its shelf is gone.
pub fn filter_selection_label(groups: &Vec<LibraryGroup>, active: &Option<ActiveLibraryFilter>) -> (r: String)
    ensures
        active is None ==> r@ == "All comics"@,
        active matches Some(filter) ==> {
            ||| exists|i: int| #[trigger] first_filtered(groups@, *filter, i) && r@ == shelf_caption(groups@[i])
            ||| (forall|j: int| 0 <= j < groups@.len() ==> !is_filtered_group(#[trigger] groups@[j], *filter))
                && r@ == "All comics"@
        },
{
    if let Some(filter) = active {
        let key = chars_of(filter.key.as_str());
        let mut i: usize = 0;
        while i < groups.len()
            invariant
                0 <= i <= groups.len(),
                *active == Some(*filter),
                key@ == filter.key@,
                forall|j: int| 0 <= j < i ==> !is_filtered_group(#[trigger] groups@[j], *filter),
            decreases groups.len() - i,
        {
            let g = &groups[i];
            let group_key = chars_of(g.key.as_str());
            if g.kind == filter.kind && chars_eq(&group_key, &key) {
                let label = group_label(g);
                proof {
                    assert(is_filtered_group(groups@[i as int], *filter));
                    assert(first_filtered(groups@, *filter, i as int));
                    assert(label@ == shelf_caption(groups@[i as int]));
                }
                return label;
            }
            i += 1;
        }
    }
    owned("All comics")
}

/// The indices of the groups of `kind`, in order.
pub open spec fn indices_of_kind(groups: Seq<LibraryGroup>, kind: LibraryGroupKind) -> Seq<usize> {
    Seq::new(groups.len(), |i: int| i as usize).filter(|i: usize| groups[i as int].kind == kind)
}

fn push_indices_of_kind(groups: &Vec<LibraryGroup>, kind: LibraryGroupKind, out: &mut Vec<usize>)
    ensures
        final(out)@ == old(out)@ + indices_of_kind(groups@, kind),
{
    let ghost all = Seq::new(groups@.len(), |i: int| i as usize);
    let ghost pred = |i: usize| groups@[i as int].kind == kind;
    let ghost start = out@;
    let mut i: usize = 0;
    while i < groups.len()
        invariant
            0 <= i <= groups.len(),
            all == Seq::new(groups@.len(), |i: int| i as usize),
            pred == (|i: usize| groups@[i as int].kind == kind),
            out@ == start + all.take(i as int).filter(pred),
        decreases groups.len() - i,
    {
        proof {
            assert(all.take(i + 1).drop_last() =~= all.take(i as int));
            assert(all.take(i + 1).last() == i);
            reveal(Seq::filter);
        }
        if groups[i].kind == kind {
            out.push(i);
            proof {
                assert(out@ =~= start + all.take(i + 1).filter(pred));
            }
        } else {
            proof {
                assert(out@ =~= start + all.take(i + 1).filter(pred));
            }
        }
        i += 1;
    }
    proof {
        assert(all.take(groups@.len() as int) =~= all);
    }
}

/// The shelves the picker offers after `All comics`, as indices into
/// `groups`: the built-in shelves, then the series, then the folders, each
/// in the order the groups have.
pub fn filter_choices(groups: &Vec<LibraryGroup>) -> (r: Vec<usize>)
    ensures
        r@ == indices_of_kind(groups@, LibraryGroupKind::Builtin) + indices_of_kind(groups@, LibraryGroupKind::Series)
            + indices_of_kind(groups@, LibraryGroupKind::Folder),
{
    let mut r: Vec<usize> = Vec::new();
    push_indices_of_kind(groups, LibraryGroupKind::Builtin, &mut r);
    push_indices_of_kind(groups, LibraryGroupKind::Series, &mut r);
    push_indices_of_kind(groups, LibraryGroupKind::Folder, &mut r);
    proof {
        assert(Seq::<usize>::empty() + indices_of_kind(groups@, LibraryGroupKind::Builtin) =~= indices_of_kind(
            groups@,
            LibraryGroupKind::Builtin,
        ));
    }
    r
}

/// The name of a sort order as the sort picker shows it.
pub fn sort_option_label(option: LibrarySortOption) -> (r: &'static str)
    ensures
        r@ == match option {
            LibrarySortOption::Title => "Title"@,
            LibrarySortOption::DateAdded => "Date Added"@,
            LibrarySortOption::Series => "Series"@,
            LibrarySortOption::Number => "Number"@,
        },
{
    match option {
        LibrarySortOption::Title => "Title",
        LibrarySortOption::DateAdded => "Date Added",
        LibrarySortOption::Series => "Series",
        LibrarySortOption::Number => "Number",
    }
}

/// `text` when it has at most `max_chars` characters; otherwise its first
/// `max_chars - 3` characters (none when `max_chars < 3`) and `...`.
pub open spec fn ellipsized(text: Seq<char>, max_chars: usize) -> Seq<char> {
    if text.len() <= max_chars {
        text
    } else {
        text.take(if max_chars < 3 {
            0int
        } else {
            max_chars - 3
        }) + "..."@
    }
}

pub fn ellipsize_text(text: &str, max_chars: usize) -> (r: String)
    ensures
        r@ == ellipsized(text@, max_chars),
{
    let chars = chars_of(text);
    if chars.len() <= max_chars {
        return owned(text);
    }
    let visible = max_chars.saturating_sub(3);
    let mut kept: Vec<char> = Vec::new();
    let mut i: usize = 0;
    while i < visible
        invariant
            visible <= max_chars < chars.len(),
            0 <= i <= visible,
            kept@ == chars@.take(i as int),
        decreases visible - i,
    {
        kept.push(chars[i]);
        proof {
            assert(chars@.take(i + 1) =~= chars@.take(i as int).push(chars@[i as int]));
        }
        i += 1;
    }
    let mut s = string_from(&kept);
    push_str_chars(&mut s, "...");
    s
}

/// The title and the explanation shown when the library holds no comics.
pub fn empty_library_text() -> (r: (&'static str, &'static str))
    ensures
        r.0@ == "No library loaded"@,
        r.1@ == "Add comics from a file or folder to build your library root."@,
{
    ("No library loaded", "Add comics from a file or folder to build your library root.")
}

/// The grid item for the `index`-th comic of a scan, before it is stored:
/// numbered from 1, titled by its file stem (the whole path when it has
/// none), filed under its parent directory, available, with no thumbnail,
/// metadata or progress yet.
pub open spec fn scanned_item_ok(item: LibraryGridItem, index: int, comic: ScannedComic) -> bool {
    &&& item.comic_id == index + 1
    &&& item.title@ == match path_file_stem(comic.path@) {
        Some(stem) => stem,
        None => comic.path@,
    }
    &&& item.path@ == comic.path@
    &&& item.source_fingerprint@ == comic.fingerprint@
    &&& item.page_count == comic.page_count
    &&& item.thumbnail_status == ThumbnailStatus::Missing
    &&& item.availability == ComicAvailability::Available
    &&& item.subtitle is None
    &&& item.series is None
    &&& item.series_key is None
    &&& match path_parent(comic.path@) {
        Some(parent) => {
            &&& item.folder_key is Some && item.folder_key->0@ == parent
            &&& match path_file_name(parent) {
                Some(name) => item.folder_label is Some && item.folder_label->0@ == name,
                None => item.folder_label is None,
            }
        },
        None => item.folder_key is None && item.folder_label is None,
    }
    &&& item.writer is None
    &&& item.number is None
    &&& !item.is_read
    &&& item.current_page == 0
}

fn scanned_item(index: usize, comic: &ScannedComic) -> (item: LibraryGridItem)
    requires
        index < i64::MAX,
    ensures
        scanned_item_ok(item, index as int, *comic),
{
    let title = match file_stem_of(comic.path.as_str()) {
        Some(stem) => stem,
        None => comic.path.clone(),
    };
    let parent = parent_of(comic.path.as_str());
    let (folder_label, folder_key) = match parent {
        Some(p) => (file_name_of(p.as_str()), Some(p)),
        None => (None, None),
    };
    LibraryGridItem {
        comic_id: index as i64 + 1,
        title,
        subtitle: None,
        path: comic.path.clone(),
        source_fingerprint: comic.fingerprint.clone(),
        page_count: comic.page_count,
        thumbnail_status: ThumbnailStatus::Missing,
        availability: ComicAvailability::Available,
        series: None,
        series_key: None,
        folder_label,
        folder_key,
        writer: None,
        number: None,
        is_read: false,
        current_page: 0,
    }
}

/// Grid items for freshly scanned comics, in scan order.
pub fn scanned_comics_to_grid_items(comics: &[ScannedComic]) -> (r: Vec<LibraryGridItem>)
    requires
        comics@.len() < i64::MAX,
    ensures
        r.len() == comics@.len(),
        forall|i: int| 0 <= i < r.len() ==> scanned_item_ok(#[trigger] r@[i], i, comics@[i]),
{
    let mut r: Vec<LibraryGridItem> = Vec::new();
    let n = comics.len();
    let mut i: usize = 0;
    while i < n
        invariant
            n == comics@.len(),
            n < i64::MAX,
            0 <= i <= n,
            r.len() == i,
            forall|k: int| 0 <= k < i ==> scanned_item_ok(#[trigger] r@[k], k, comics@[k]),
        decreases n - i,
    {
        let item = scanned_item(i, &comics[i]);
        r.push(item);
        i += 1;
    }
    r
}

/// What the user did to a comic in the library view.
pub enum LibraryItemEvent {
    Open(Box<LibraryGridItem>),
    SetRead { comic_id: i64, is_read: bool },
    Remove { comic_id: i64 },
    CoverUnreadable { comic_id: i64 },
}

/// Whether the settings window is open, and the last error it reported.
#[derive(Debug, Clone, Default, PartialEq, Eq)]
pub struct SettingsWindowState {
    pub open: bool,
    pub last_error: Option<String>,
}

} // verus!
