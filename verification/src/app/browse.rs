//! What the library view shows: which comics pass the search and the shelf
//! filter, and the order they are listed in.
use vstd::prelude::*;

use crate::app::shelves::{builtin_member, same_catalog};
use crate::library::models::{ActiveLibraryFilter, LibraryGridItem, LibraryGroupKind};
use crate::text::{chars_eq, chars_of, contains, contains_chars, lowercase, to_lowercase};
use crate::vfs::ordering::{natord_compare, natord_order};

verus! {

/// How the library view orders comics.
#[derive(Debug, Clone, Copy, Default, PartialEq, Eq, Structural)]
pub enum LibrarySortOption {
    #[default]
    Title,
    DateAdded,
    Series,
    Number,
}

/// The text of an optional field, empty when the field is absent.
pub open spec fn opt_text(o: Option<String>) -> Seq<char> {
    match o {
        Some(s) => s@,
        None => Seq::empty(),
    }
}

/// Whether a comic matches a lowercased search query: an empty query matches
/// everything, otherwise the query must occur in the lowercased title, series
/// or writer.
pub open spec fn query_matches(it: LibraryGridItem, q: Seq<char>) -> bool {
    ||| q.len() == 0
    ||| contains_chars(lowercase(it.title@), q)
    ||| (it.series is Some && contains_chars(lowercase(it.series.unwrap()@), q))
    ||| (it.writer is Some && contains_chars(lowercase(it.writer.unwrap()@), q))
}

/// Whether a comic is on the shelf the view is narrowed to (every comic when
/// there is none).
pub open spec fn filter_matches(it: LibraryGridItem, filter: Option<ActiveLibraryFilter>) -> bool {
    match filter {
        None => true,
        Some(f) => match f.kind {
            LibraryGroupKind::Builtin => builtin_member(it, f.key@),
            LibraryGroupKind::Series => it.series_key is Some && it.series_key.unwrap()@ == f.key@,
            LibraryGroupKind::Folder => it.folder_key is Some && it.folder_key.unwrap()@ == f.key@,
        },
    }
}

/// Whether a comic is shown for the query and the filter.
pub open spec fn shown(it: LibraryGridItem, q: Seq<char>, filter: Option<ActiveLibraryFilter>) -> bool {
    query_matches(it, q) && filter_matches(it, filter)
}

/// The first comparison unless it ties, then the second.
pub open spec fn then_order(first: int, second: int) -> int {
    if first != 0 {
        first
    } else {
        second
    }
}

/// The listing order of two comics (`-1`, `0` or `1`) under a sort option:
/// natural order of titles; newest first; natural order of series then
/// titles; or natural order of numbers then titles, comics without a number
/// last.
#[verifier::opaque]
pub open spec fn item_order(sort: LibrarySortOption, a: LibraryGridItem, b: LibraryGridItem) -> int {
    match sort {
        LibrarySortOption::Title => natord_order(a.title@, b.title@),
        LibrarySortOption::DateAdded => if a.comic_id > b.comic_id {
            -1
        } else if a.comic_id < b.comic_id {
            1
        } else {
            0
        },
        LibrarySortOption::Series => then_order(
            natord_order(opt_text(a.series), opt_text(b.series)),
            natord_order(a.title@, b.title@),
        ),
        LibrarySortOption::Number => {
            let na = opt_text(a.number);
            let nb = opt_text(b.number);
            if na.len() == 0 && nb.len() > 0 {
                1
            } else if na.len() > 0 && nb.len() == 0 {
                -1
            } else {
                then_order(natord_order(na, nb), natord_order(a.title@, b.title@))
            }
        },
    }
}

/// Comic `a` is listed right before comic `b`: it sorts first, or they tie
/// and `a` comes first in the library.
pub open spec fn listed_before(items: Seq<LibraryGridItem>, sort: LibrarySortOption, a: usize, b: usize) -> bool {
    let o = item_order(sort, items[a as int], items[b as int]);
    o < 0 || (o == 0 && a < b)
}

/// `vis` lists, once each, exactly the indices of the comics shown for the
/// query and the filter, in listing order.
pub open spec fn visible_of(
    items: Seq<LibraryGridItem>,
    q: Seq<char>,
    filter: Option<ActiveLibraryFilter>,
    sort: LibrarySortOption,
    vis: Seq<usize>,
) -> bool {
    &&& forall|k: int|
        0 <= k < vis.len() ==> (#[trigger] vis[k]) < items.len() && shown(items[vis[k] as int], q, filter)
    &&& forall|i: int| 0 <= i < items.len() && shown(#[trigger] items[i], q, filter) ==> vis.contains(i as usize)
    &&& forall|a: int, b: int| 0 <= a < b < vis.len() ==> (#[trigger] vis[a]) != (#[trigger] vis[b])
    &&& forall|k: int| 0 <= k < vis.len() - 1 ==> listed_before(items, sort, #[trigger] vis[k], vis[k + 1])
}

/// The text of an optional field, empty when absent.
fn opt_str(o: &Option<String>) -> (r: &str)
    ensures
        r@ == opt_text(*o),
{
    match o {
        Some(s) => s.as_str(),
        None => {
            proof {
                reveal_strlit("");
                assert(""@ =~= Seq::<char>::empty());
            }
            ""
        },
    }
}

/// Compares two comics in listing order under `sort`; comparing the other
/// way round gives the opposite answer.
pub fn compare_items(sort: LibrarySortOption, a: &LibraryGridItem, b: &LibraryGridItem) -> (r: i8)
    ensures
        r == item_order(sort, *a, *b),
        item_order(sort, *b, *a) == -r,
{
    reveal(item_order);
    match sort {
        LibrarySortOption::Title => natord_compare(a.title.as_str(), b.title.as_str()),
        LibrarySortOption::DateAdded => {
            if a.comic_id > b.comic_id {
                -1
            } else if a.comic_id < b.comic_id {
                1
            } else {
                0
            }
        },
        LibrarySortOption::Series => {
            let c = natord_compare(opt_str(&a.series), opt_str(&b.series));
            if c != 0 {
                c
            } else {
                natord_compare(a.title.as_str(), b.title.as_str())
            }
        },
        LibrarySortOption::Number => {
            let na = opt_str(&a.number);
            let nb = opt_str(&b.number);
            let ea = na.is_empty();
            let eb = nb.is_empty();
            if ea && !eb {
                1
            } else if !ea && eb {
                -1
            } else {
                let c = natord_compare(na, nb);
                if c != 0 {
                    c
                } else {
                    natord_compare(a.title.as_str(), b.title.as_str())
                }
            }
        },
    }
}

/// How each sort option orders two comics. By title: the natural order of
/// the titles. By date added: the comic added later (the larger id) first.
/// By series: the natural order of the series (an absent series as empty)
/// decides whenever the series differ in it, whatever the titles; only
/// comics of series that tie are ordered by title. By number: a comic
/// without a number comes after one with a number; otherwise the natural
/// order of the numbers decides, then the titles.
pub proof fn lemma_sort_orders(a: LibraryGridItem, b: LibraryGridItem)
    ensures
        item_order(LibrarySortOption::Title, a, b) == natord_order(a.title@, b.title@),
        a.comic_id > b.comic_id ==> item_order(LibrarySortOption::DateAdded, a, b) < 0,
        a.comic_id < b.comic_id ==> item_order(LibrarySortOption::DateAdded, a, b) > 0,
        a.comic_id == b.comic_id ==> item_order(LibrarySortOption::DateAdded, a, b) == 0,
        natord_order(opt_text(a.series), opt_text(b.series)) != 0 ==> item_order(LibrarySortOption::Series, a, b)
            == natord_order(opt_text(a.series), opt_text(b.series)),
        natord_order(opt_text(a.series), opt_text(b.series)) == 0 ==> item_order(LibrarySortOption::Series, a, b)
            == natord_order(a.title@, b.title@),
        opt_text(a.number).len() == 0 && opt_text(b.number).len() > 0 ==> item_order(
            LibrarySortOption::Number,
            a,
            b,
        ) > 0,
        opt_text(a.number).len() > 0 && opt_text(b.number).len() == 0 ==> item_order(
            LibrarySortOption::Number,
            a,
            b,
        ) < 0,
        (opt_text(a.number).len() > 0) == (opt_text(b.number).len() > 0) && natord_order(
            opt_text(a.number),
            opt_text(b.number),
        ) != 0 ==> item_order(LibrarySortOption::Number, a, b) == natord_order(
            opt_text(a.number),
            opt_text(b.number),
        ),
        (opt_text(a.number).len() > 0) == (opt_text(b.number).len() > 0) && natord_order(
            opt_text(a.number),
            opt_text(b.number),
        ) == 0 ==> item_order(LibrarySortOption::Number, a, b) == natord_order(a.title@, b.title@),
{
    reveal(item_order);
}

/// In a listing sorted by series, a comic of a series that comes first in
/// natural order is listed before a comic of a later series, whatever their
/// titles.
pub proof fn lemma_series_sort_lists_series_first(
    items: Seq<LibraryGridItem>,
    q: Seq<char>,
    filter: Option<ActiveLibraryFilter>,
    vis: Seq<usize>,
    k: int,
)
    requires
        visible_of(items, q, filter, LibrarySortOption::Series, vis),
        0 <= k < vis.len() - 1,
    ensures
        natord_order(opt_text(items[vis[k] as int].series), opt_text(items[vis[k + 1] as int].series)) <= 0,
{
    reveal(item_order);
    assert(listed_before(items, LibrarySortOption::Series, vis[k], vis[k + 1]));
}

/// `s` holds exactly the characters of `lit`.
fn text_is(s: &str, lit: &str) -> (r: bool)
    ensures
        r == (s@ == lit@),
{
    let a = chars_of(s);
    let b = chars_of(lit);
    chars_eq(&a, &b)
}

/// Whether a comic is on the reading-progress shelf `key`.
pub fn on_progress_shelf(it: &LibraryGridItem, key: &str) -> (r: bool)
    ensures
        r == builtin_member(*it, key@),
{
    if text_is(key, "continue_reading") {
        !it.is_read && it.current_page > 0
    } else if text_is(key, "unread") {
        !it.is_read && it.current_page == 0
    } else if text_is(key, "read") {
        it.is_read
    } else {
        false
    }
}

/// Whether the lowercased `text` contains `q`.
fn lowercase_contains(text: &str, q: &Vec<char>) -> (r: bool)
    ensures
        r == contains_chars(lowercase(text@), q@),
{
    let low = to_lowercase(text);
    let chars = chars_of(low.as_str());
    contains(&chars, q)
}

/// Whether a comic matches the lowercased query `q`.
pub fn matches_query(it: &LibraryGridItem, q: &Vec<char>) -> (r: bool)
    ensures
        r == query_matches(*it, q@),
{
    if q.len() == 0 {
        return true;
    }
    if lowercase_contains(it.title.as_str(), q) {
        return true;
    }
    if let Some(series) = &it.series {
        if lowercase_contains(series.as_str(), q) {
            return true;
        }
    }
    match &it.writer {
        Some(writer) => lowercase_contains(writer.as_str(), q),
        None => false,
    }
}

/// Whether a comic is on the shelf `filter` narrows the view to.
pub fn matches_filter(it: &LibraryGridItem, filter: &Option<ActiveLibraryFilter>) -> (r: bool)
    ensures
        r == filter_matches(*it, *filter),
{
    match filter {
        None => true,
        Some(f) => match f.kind {
            LibraryGroupKind::Builtin => on_progress_shelf(it, f.key.as_str()),
            LibraryGroupKind::Series => match &it.series_key {
                Some(k) => *k == f.key,
                None => false,
            },
            LibraryGroupKind::Folder => match &it.folder_key {
                Some(k) => *k == f.key,
                None => false,
            },
        },
    }
}

/// No index occurs twice in `s`.
pub open spec fn distinct_indices(s: Seq<usize>) -> bool {
    forall|a: int, b: int| 0 <= a < b < s.len() ==> (#[trigger] s[a]) != (#[trigger] s[b])
}

/// Neighbouring indices of `s` are in listing order.
pub open spec fn in_listing_order(items: Seq<LibraryGridItem>, sort: LibrarySortOption, s: Seq<usize>) -> bool {
    forall|k: int| 0 <= k < s.len() - 1 ==> listed_before(items, sort, #[trigger] s[k], s[k + 1])
}

/// Inserts index `i`, larger than every index of `res`, at its place in
/// listing order (after the indices it ties with).
fn insert_in_order(res: &mut Vec<usize>, items: &Vec<LibraryGridItem>, sort: LibrarySortOption, i: usize)
    requires
        i < items.len(),
        forall|k: int| 0 <= k < old(res).len() ==> (#[trigger] old(res)@[k]) < i,
        distinct_indices(old(res)@),
        in_listing_order(items@, sort, old(res)@),
    ensures
        final(res).len() == old(res).len() + 1,
        final(res)@.contains(i),
        forall|k: int| 0 <= k < final(res).len() ==> #[trigger] final(res)@[k] == i || old(res)@.contains(final(res)@[k]),
        forall|x: usize| old(res)@.contains(x) ==> final(res)@.contains(x),
        distinct_indices(final(res)@),
        in_listing_order(items@, sort, final(res)@),
{
    let mut pos = res.len();
    let mut moving = true;
    while moving && pos > 0
        invariant
            i < items.len(),
            pos <= res.len(),
            forall|k: int| 0 <= k < res.len() ==> (#[trigger] res@[k]) < i,
            pos < res.len() ==> item_order(sort, items@[i as int], items@[res@[pos as int] as int]) < 0,
            !moving ==> pos > 0 && item_order(sort, items@[res@[pos - 1] as int], items@[i as int]) <= 0,
        decreases pos + (if moving {
            1int
        } else {
            0int
        }),
    {
        let c = compare_items(sort, &items[res[pos - 1]], &items[i]);
        if c > 0 {
            pos -= 1;
        } else {
            moving = false;
        }
    }
    let ghost before = res@;
    res.insert(pos, i);
    proof {
        lemma_insert_members(before, pos as int, i);
        lemma_insert_order(items@, sort, before, pos as int, i);
    }
}

proof fn lemma_insert_members(before: Seq<usize>, pos: int, i: usize)
    requires
        0 <= pos <= before.len(),
        forall|k: int| 0 <= k < before.len() ==> (#[trigger] before[k]) < i,
        distinct_indices(before),
    ensures
        before.insert(pos, i).contains(i),
        forall|k: int| 0 <= k < before.len() + 1 ==> #[trigger] before.insert(pos, i)[k] == i || before.contains(before.insert(pos, i)[k]),
        forall|x: usize| before.contains(x) ==> before.insert(pos, i).contains(x),
        distinct_indices(before.insert(pos, i)),
{
    let after = before.insert(pos, i);
    assert(after[pos] == i);
    assert forall|k: int| 0 <= k < after.len() implies #[trigger] after[k] == i || before.contains(after[k]) by {
        if k < pos {
            assert(after[k] == before[k]);
        } else if k > pos {
            assert(after[k] == before[k - 1]);
        }
    }
    assert forall|x: usize| before.contains(x) implies after.contains(x) by {
        let w = choose|w: int| 0 <= w < before.len() && before[w] == x;
        if w < pos {
            assert(after[w] == before[w]);
        } else {
            assert(after[w + 1] == before[w]);
        }
    }
    assert forall|a: int, b: int| 0 <= a < b < after.len() implies (#[trigger] after[a]) != (
    #[trigger] after[b]) by {
        if a == pos {
            assert(after[b] == before[b - 1]);
        } else if b == pos {
            assert(after[a] == before[a]);
        } else {
            let a0 = if a < pos {
                a
            } else {
                a - 1
            };
            let b0 = if b < pos {
                b
            } else {
                b - 1
            };
            assert(after[a] == before[a0]);
            assert(after[b] == before[b0]);
        }
    }
}

proof fn lemma_insert_order(items: Seq<LibraryGridItem>, sort: LibrarySortOption, before: Seq<usize>, pos: int, i: usize)
    requires
        0 <= pos <= before.len(),
        forall|k: int| 0 <= k < before.len() ==> (#[trigger] before[k]) < i,
        in_listing_order(items, sort, before),
        pos < before.len() ==> item_order(sort, items[i as int], items[before[pos] as int]) < 0,
        pos > 0 ==> item_order(sort, items[before[pos - 1] as int], items[i as int]) <= 0,
    ensures
        in_listing_order(items, sort, before.insert(pos, i)),
{
    let after = before.insert(pos, i);
    assert forall|k: int| 0 <= k < after.len() - 1 implies listed_before(
        items,
        sort,
        #[trigger] after[k],
        after[k + 1],
    ) by {
        if k < pos - 1 {
            assert(after[k] == before[k]);
            assert(after[k + 1] == before[k + 1]);
        } else if k == pos - 1 {
            assert(after[k] == before[k]);
            assert(after[k + 1] == i);
        } else if k == pos {
            assert(after[k] == i);
            assert(after[k + 1] == before[k]);
        } else {
            assert(after[k] == before[k - 1]);
            assert(after[k + 1] == before[k]);
        }
    }
}

/// The indices of the comics shown for the lowercased query `q` and the
/// filter, in listing order. Ties keep library order.
pub fn arrange_visible(
    items: &Vec<LibraryGridItem>,
    q: &Vec<char>,
    filter: &Option<ActiveLibraryFilter>,
    sort: LibrarySortOption,
) -> (vis: Vec<usize>)
    ensures
        visible_of(items@, q@, *filter, sort, vis@),
{
    let mut res: Vec<usize> = Vec::new();
    let n = items.len();
    let mut i: usize = 0;
    while i < n
        invariant
            n == items.len(),
            0 <= i <= n,
            forall|k: int|
                0 <= k < res.len() ==> (#[trigger] res@[k]) < i && shown(items@[res@[k] as int], q@, *filter),
            forall|j: int| 0 <= j < i && shown(#[trigger] items@[j], q@, *filter) ==> res@.contains(j as usize),
            distinct_indices(res@),
            in_listing_order(items@, sort, res@),
        decreases n - i,
    {
        let show = matches_query(&items[i], q) && matches_filter(&items[i], filter);
        if show {
            let ghost before = res@;
            insert_in_order(&mut res, items, sort, i);
            proof {
                assert forall|k: int|
                    0 <= k < res.len() implies (#[trigger] res@[k]) < i + 1 && shown(
                    items@[res@[k] as int],
                    q@,
                    *filter,
                ) by {
                    if res@[k] != i {
                        let w = choose|w: int| 0 <= w < before.len() && before[w] == res@[k];
                    }
                }
            }
        }
        i += 1;
    }
    res
}

/// Changing only reading progress does not change which comics a search, or
/// a series or folder filter, shows, nor their order.
pub proof fn lemma_progress_change_keeps_visible(
    a: Seq<LibraryGridItem>,
    b: Seq<LibraryGridItem>,
    q: Seq<char>,
    filter: Option<ActiveLibraryFilter>,
    sort: LibrarySortOption,
    vis: Seq<usize>,
)
    requires
        visible_of(a, q, filter, sort, vis),
        same_catalog(a, b),
        filter is None || filter->0.kind != LibraryGroupKind::Builtin,
    ensures
        visible_of(b, q, filter, sort, vis),
{
    reveal(item_order);
    assert forall|i: int| 0 <= i < a.len() implies shown(#[trigger] b[i], q, filter) == shown(a[i], q, filter) && (
    forall|s: LibrarySortOption, j: int| 0 <= j < a.len() ==> #[trigger] item_order(s, b[i], b[j]) == item_order(s, a[i], a[j])) by {
        assert(b[i] == (LibraryGridItem { is_read: b[i].is_read, current_page: b[i].current_page, ..a[i] }));
        assert forall|s: LibrarySortOption, j: int| 0 <= j < a.len() implies #[trigger] item_order(s, b[i], b[j]) == item_order(s, a[i], a[j]) by {
            assert(b[j] == (LibraryGridItem { is_read: b[j].is_read, current_page: b[j].current_page, ..a[j] }));
        }
    }
    assert forall|k: int| 0 <= k < vis.len() - 1 implies listed_before(b, sort, #[trigger] vis[k], vis[k + 1]) by {
        assert(listed_before(a, sort, vis[k], vis[k + 1]));
        assert(item_order(sort, b[vis[k] as int], b[vis[k + 1] as int]) == item_order(sort, a[vis[k] as int], a[vis[k + 1] as int]));
    }
}

/// What the library shows: with no search and no shelf every comic; a
/// comic whose lowercased title, series or writer contains the lowercased
/// query matches the search; with a series or folder shelf chosen only the
/// comics on that shelf; with a progress shelf only the comics on it.
pub proof fn lemma_what_is_shown(it: LibraryGridItem, q: Seq<char>, f: ActiveLibraryFilter)
    ensures
        shown(it, Seq::empty(), None),
        contains_chars(lowercase(it.title@), q) ==> query_matches(it, q),
        it.series matches Some(s) && contains_chars(lowercase(s@), q) ==> query_matches(it, q),
        it.writer matches Some(w) && contains_chars(lowercase(w@), q) ==> query_matches(it, q),
        q.len() > 0 && !contains_chars(lowercase(it.title@), q) && it.series is None && it.writer is None
            ==> !query_matches(it, q),
        f.kind == LibraryGroupKind::Series ==> (filter_matches(it, Some(f)) <==> (it.series_key matches Some(k) && k@
            == f.key@)),
        f.kind == LibraryGroupKind::Folder ==> (filter_matches(it, Some(f)) <==> (it.folder_key matches Some(k) && k@
            == f.key@)),
        f.kind == LibraryGroupKind::Builtin ==> (filter_matches(it, Some(f)) <==> builtin_member(it, f.key@)),
{
}

} // verus!
