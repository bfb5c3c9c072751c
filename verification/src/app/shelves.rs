//! Library shelves: which comics belong to which series, folder and
//! reading-progress shelf, how many each holds, and the order shelves are
//! listed in.
use vstd::prelude::*;

use crate::library::models::{LibraryGridItem, LibraryGroup, LibraryGroupKind};
use crate::text::{chars_of, lowercase, to_lowercase};
use crate::vfs::ordering::{lemma_lex_antisymmetric, lex_compare, lex_order};

verus! {

broadcast use vstd::seq_lib::group_to_multiset_ensures;

/// The keys of the three reading-progress shelves.
pub open spec fn is_builtin_key(k: Seq<char>) -> bool {
    k == "continue_reading"@ || k == "unread"@ || k == "read"@
}

/// The label shown for a reading-progress shelf.
pub open spec fn builtin_label(k: Seq<char>) -> Seq<char> {
    if k == "continue_reading"@ {
        "Continue Reading"@
    } else if k == "unread"@ {
        "Unread"@
    } else {
        "Read"@
    }
}

/// Whether a comic sits on the reading-progress shelf `key`: started but not
/// finished, not started, or finished.
pub open spec fn builtin_member(it: LibraryGridItem, key: Seq<char>) -> bool {
    if key == "continue_reading"@ {
        !it.is_read && it.current_page > 0
    } else if key == "unread"@ {
        !it.is_read && it.current_page == 0
    } else if key == "read"@ {
        it.is_read
    } else {
        false
    }
}

/// Whether a comic has a shelf of kind `kind` at all: a series shelf needs
/// both a series name and its key, a folder shelf both a folder label and its
/// key.
pub open spec fn shelved(it: LibraryGridItem, kind: LibraryGroupKind) -> bool {
    match kind {
        LibraryGroupKind::Series => it.series_key is Some && it.series is Some,
        LibraryGroupKind::Folder => it.folder_key is Some && it.folder_label is Some,
        LibraryGroupKind::Builtin => false,
    }
}

/// The shelf key of a shelved comic.
pub open spec fn shelf_key(it: LibraryGridItem, kind: LibraryGroupKind) -> Seq<char> {
    match kind {
        LibraryGroupKind::Series => it.series_key.unwrap()@,
        LibraryGroupKind::Folder => it.folder_key.unwrap()@,
        LibraryGroupKind::Builtin => Seq::empty(),
    }
}

/// The shelf label a shelved comic contributes.
pub open spec fn shelf_label(it: LibraryGridItem, kind: LibraryGroupKind) -> Seq<char> {
    match kind {
        LibraryGroupKind::Series => it.series.unwrap()@,
        LibraryGroupKind::Folder => it.folder_label.unwrap()@,
        LibraryGroupKind::Builtin => Seq::empty(),
    }
}

/// Whether a comic belongs on the shelf `(kind, key)`.
pub open spec fn member(it: LibraryGridItem, kind: LibraryGroupKind, key: Seq<char>) -> bool {
    match kind {
        LibraryGroupKind::Builtin => builtin_member(it, key),
        _ => shelved(it, kind) && shelf_key(it, kind) == key,
    }
}

/// The number of comics of `items` on the shelf `(kind, key)`.
pub open spec fn count_members(
    items: Seq<LibraryGridItem>,
    kind: LibraryGroupKind,
    key: Seq<char>,
) -> nat
    decreases items.len(),
{
    if items.len() == 0 {
        0
    } else {
        count_members(items.drop_last(), kind, key) + if member(items.last(), kind, key) {
            1nat
        } else {
            0nat
        }
    }
}

/// The label of a shelf is right: a progress shelf has its fixed label; a
/// series or folder shelf has the label of the first comic on it.
pub open spec fn label_ok(items: Seq<LibraryGridItem>, g: LibraryGroup) -> bool {
    if g.kind == LibraryGroupKind::Builtin {
        is_builtin_key(g.key@) && g.label@ == builtin_label(g.key@)
    } else {
        exists|j: int|
            #![trigger items[j]]
            0 <= j < items.len() && member(items[j], g.kind, g.key@) && g.label@ == shelf_label(
                items[j],
                g.kind,
            ) && forall|j2: int| 0 <= j2 < j ==> !member(#[trigger] items[j2], g.kind, g.key@)
    }
}

/// A listed shelf is non-empty, counts its comics exactly and is labelled
/// right.
pub open spec fn shelf_ok(items: Seq<LibraryGridItem>, g: LibraryGroup) -> bool {
    &&& g.item_count > 0
    &&& g.item_count == count_members(items, g.kind, g.key@)
    &&& label_ok(items, g)
}

/// Some listed shelf is `(kind, key)`.
pub open spec fn listed(groups: Seq<LibraryGroup>, kind: LibraryGroupKind, key: Seq<char>) -> bool {
    exists|k: int| 0 <= k < groups.len() && (#[trigger] groups[k]).kind == kind && groups[k].key@ == key
}

/// Every series and folder a comic has is listed.
pub open spec fn shelved_cover(items: Seq<LibraryGridItem>, groups: Seq<LibraryGroup>) -> bool {
    &&& forall|j: int|
        0 <= j < items.len() && shelved(#[trigger] items[j], LibraryGroupKind::Series) ==> listed(
            groups,
            LibraryGroupKind::Series,
            shelf_key(items[j], LibraryGroupKind::Series),
        )
    &&& forall|j: int|
        0 <= j < items.len() && shelved(#[trigger] items[j], LibraryGroupKind::Folder) ==> listed(
            groups,
            LibraryGroupKind::Folder,
            shelf_key(items[j], LibraryGroupKind::Folder),
        )
}

/// Every non-empty progress shelf is listed.
pub open spec fn progress_cover(items: Seq<LibraryGridItem>, groups: Seq<LibraryGroup>) -> bool {
    forall|b: Seq<char>|
        is_builtin_key(b) && #[trigger] count_members(items, LibraryGroupKind::Builtin, b) > 0
            ==> listed(groups, LibraryGroupKind::Builtin, b)
}

/// Every series and folder a comic has, and every non-empty progress shelf,
/// is listed.
pub open spec fn shelves_cover(items: Seq<LibraryGridItem>, groups: Seq<LibraryGroup>) -> bool {
    shelved_cover(items, groups) && progress_cover(items, groups)
}

/// No shelf is listed twice.
pub open spec fn shelves_distinct(groups: Seq<LibraryGroup>) -> bool {
    forall|a: int, b: int|
        0 <= a < groups.len() && 0 <= b < groups.len() && a != b && (#[trigger] groups[a]).kind
            == (#[trigger] groups[b]).kind ==> groups[a].key@ != groups[b].key@
}

/// The listing order of shelves: by kind, then by lowercased label, then by
/// key.
pub open spec fn group_order(a: LibraryGroup, b: LibraryGroup) -> int {
    if a.kind.rank() != b.kind.rank() {
        if a.kind.rank() < b.kind.rank() {
            -1
        } else {
            1
        }
    } else if lex_order(lowercase(a.label@), lowercase(b.label@)) != 0 {
        lex_order(lowercase(a.label@), lowercase(b.label@))
    } else {
        lex_order(a.key@, b.key@)
    }
}

/// Neighbouring shelves are in listing order.
pub open spec fn shelves_sorted(groups: Seq<LibraryGroup>) -> bool {
    forall|k: int| 0 <= k < groups.len() - 1 ==> group_order(#[trigger] groups[k], groups[k + 1]) <= 0
}

/// `groups` is the shelf listing of `items`: exactly the non-empty shelves,
/// each once, counted and labelled right, in listing order.
pub open spec fn shelves_of(items: Seq<LibraryGridItem>, groups: Seq<LibraryGroup>) -> bool {
    &&& forall|k: int| 0 <= k < groups.len() ==> shelf_ok(items, #[trigger] groups[k])
    &&& shelves_cover(items, groups)
    &&& shelves_distinct(groups)
    &&& shelves_sorted(groups)
}

// ---------------------------------------------------------------------------
// Counting lemmas

/// A shelf never counts more comics than the library holds.
pub proof fn lemma_count_bound(items: Seq<LibraryGridItem>, kind: LibraryGroupKind, key: Seq<char>)
    ensures
        count_members(items, kind, key) <= items.len(),
    decreases items.len(),
{
    if items.len() > 0 {
        lemma_count_bound(items.drop_last(), kind, key);
    }
}

pub(crate) proof fn lemma_count_zero(items: Seq<LibraryGridItem>, kind: LibraryGroupKind, key: Seq<char>)
    requires
        forall|j: int| 0 <= j < items.len() ==> !member(#[trigger] items[j], kind, key),
    ensures
        count_members(items, kind, key) == 0,
    decreases items.len(),
{
    if items.len() > 0 {
        lemma_count_zero(items.drop_last(), kind, key);
    }
}

pub(crate) proof fn lemma_count_step(items: Seq<LibraryGridItem>, i: int, kind: LibraryGroupKind, key: Seq<char>)
    requires
        0 <= i < items.len(),
    ensures
        count_members(items.take(i + 1), kind, key) == count_members(items.take(i), kind, key) + if member(
            items[i],
            kind,
            key,
        ) {
            1nat
        } else {
            0nat
        },
{
    assert(items.take(i + 1).drop_last() =~= items.take(i));
}

// ---------------------------------------------------------------------------
// Building the listing

pub(crate) fn find_group(groups: &Vec<LibraryGroup>, kind: LibraryGroupKind, key: &String) -> (r: Option<usize>)
    ensures
        match r {
            Some(p) => p < groups.len() && groups@[p as int].kind == kind && groups@[p as int].key@
                == key@,
            None => !listed(groups@, kind, key@),
        },
{
    let mut p: usize = 0;
    while p < groups.len()
        invariant
            0 <= p <= groups.len(),
            forall|q: int| 0 <= q < p ==> !((#[trigger] groups@[q]).kind == kind && groups@[q].key@ == key@),
        decreases groups.len() - p,
    {
        if groups[p].kind == kind && groups[p].key == *key {
            return Some(p);
        }
        p += 1;
    }
    None
}

/// Adds the series (or folder) shelves of `items` after the shelves already
/// in `groups`, which hold none of that kind.
fn tally_shelves(groups: &mut Vec<LibraryGroup>, items: &Vec<LibraryGridItem>, kind: LibraryGroupKind)
    requires
        kind != LibraryGroupKind::Builtin,
        forall|k: int| 0 <= k < old(groups).len() ==> (#[trigger] old(groups)@[k]).kind != kind,
    ensures
        final(groups).len() >= old(groups).len(),
        forall|k: int| 0 <= k < old(groups).len() ==> #[trigger] final(groups)@[k] == old(groups)@[k],
        forall|k: int|
            old(groups).len() <= k < final(groups).len() ==> (#[trigger] final(groups)@[k]).kind == kind
                && shelf_ok(items@, final(groups)@[k]),
        forall|a: int, b: int|
            old(groups).len() <= a < final(groups).len() && old(groups).len() <= b < final(groups).len()
                && a != b ==> (#[trigger] final(groups)@[a]).key@ != (#[trigger] final(groups)@[b]).key@,
        forall|j: int|
            0 <= j < items.len() && shelved(#[trigger] items@[j], kind) ==> listed(
                final(groups)@,
                kind,
                shelf_key(items@[j], kind),
            ),
{
    let start = groups.len();
    let n = items.len();
    let mut i: usize = 0;
    while i < n
        invariant
            n == items.len(),
            0 <= i <= n,
            kind != LibraryGroupKind::Builtin,
            start == old(groups).len(),
            groups.len() >= start,
            forall|k: int| 0 <= k < start ==> #[trigger] groups@[k] == old(groups)@[k],
            forall|k: int| 0 <= k < start ==> (#[trigger] groups@[k]).kind != kind,
            forall|k: int|
                start <= k < groups.len() ==> (#[trigger] groups@[k]).kind == kind
                    && groups@[k].item_count > 0
                    && groups@[k].item_count == count_members(items@.take(i as int), kind, groups@[k].key@)
                    && label_ok(items@, groups@[k]),
            forall|a: int, b: int|
                start <= a < groups.len() && start <= b < groups.len() && a != b
                    ==> (#[trigger] groups@[a]).key@ != (#[trigger] groups@[b]).key@,
            forall|j: int|
                0 <= j < i && shelved(#[trigger] items@[j], kind) ==> listed(
                    groups@,
                    kind,
                    shelf_key(items@[j], kind),
                ),
        decreases n - i,
    {
        let item = &items[i];
        let entry: Option<(&String, &String)> = match kind {
            LibraryGroupKind::Series => match (&item.series_key, &item.series) {
                (Some(k), Some(l)) => Some((k, l)),
                _ => None,
            },
            _ => match (&item.folder_key, &item.folder_label) {
                (Some(k), Some(l)) => Some((k, l)),
                _ => None,
            },
        };
        let ghost before = groups@;
        match entry {
            None => {
                proof {
                    assert(!shelved(items@[i as int], kind));
                    assert forall|k: int| start <= k < groups.len() implies #[trigger] groups@[k].item_count
                        == count_members(items@.take(i + 1), kind, groups@[k].key@) by {
                        lemma_count_step(items@, i as int, kind, groups@[k].key@);
                    }
                }
            },
            Some((key, label)) => {
                proof {
                    assert(shelved(items@[i as int], kind));
                    assert(shelf_key(items@[i as int], kind) == key@);
                    assert(shelf_label(items@[i as int], kind) == label@);
                }
                match find_group(groups, kind, key) {
                    Some(p) => {
                        let mut g = copy_group(&groups[p]);
                        proof {
                            assert(p >= start);
                            lemma_count_bound(items@.take(i as int), kind, key@);
                        }
                        g.item_count = g.item_count + 1;
                        groups.set(p, g);
                        proof {
                            assert forall|k: int| start <= k < groups.len() implies #[trigger] groups@[k].item_count
                                == count_members(items@.take(i + 1), kind, groups@[k].key@) by {
                                lemma_count_step(items@, i as int, kind, groups@[k].key@);
                                if k != p {
                                    assert(groups@[k] == before[k]);
                                    assert(before[k].key@ != before[p as int].key@);
                                }
                            }
                            assert forall|k: int| start <= k < groups.len() implies label_ok(
                                items@,
                                #[trigger] groups@[k],
                            ) by {
                                if k != p {
                                    assert(groups@[k] == before[k]);
                                } else {
                                    assert(label_ok(items@, before[k]));
                                }
                            }
                            assert forall|j: int|
                                0 <= j < i + 1 && shelved(#[trigger] items@[j], kind) implies listed(
                                groups@,
                                kind,
                                shelf_key(items@[j], kind),
                            ) by {
                                if j < i {
                                    let k0 = choose|k: int|
                                        0 <= k < before.len() && (#[trigger] before[k]).kind == kind
                                            && before[k].key@ == shelf_key(items@[j], kind);
                                    assert(groups@[k0].kind == kind && groups@[k0].key@ == before[k0].key@);
                                } else {
                                    assert(groups@[p as int].kind == kind);
                                }
                            }
                        }
                    },
                    None => {
                        proof {
                            assert forall|j: int| 0 <= j < i implies !member(
                                #[trigger] items@.take(i as int)[j],
                                kind,
                                key@,
                            ) by {
                                assert(items@.take(i as int)[j] == items@[j]);
                                if member(items@[j], kind, key@) {
                                    assert(shelved(items@[j], kind));
                                }
                            }
                            lemma_count_zero(items@.take(i as int), kind, key@);
                            lemma_count_step(items@, i as int, kind, key@);
                            assert forall|j2: int| 0 <= j2 < i implies !member(#[trigger] items@[j2], kind, key@) by {
                                assert(items@.take(i as int)[j2] == items@[j2]);
                            }
                        }
                        groups.push(LibraryGroup {
                            kind,
                            key: key.clone(),
                            label: label.clone(),
                            item_count: 1,
                        });
                        proof {
                            let last = groups.len() - 1;
                            assert(groups@[last].key@ == key@);
                            assert(label_ok(items@, groups@[last]));
                            assert forall|k: int| start <= k < groups.len() implies #[trigger] groups@[k].item_count
                                == count_members(items@.take(i + 1), kind, groups@[k].key@) by {
                                lemma_count_step(items@, i as int, kind, groups@[k].key@);
                                if k < last {
                                    assert(groups@[k] == before[k]);
                                }
                            }
                            assert forall|j: int|
                                0 <= j < i + 1 && shelved(#[trigger] items@[j], kind) implies listed(
                                groups@,
                                kind,
                                shelf_key(items@[j], kind),
                            ) by {
                                if j < i {
                                    let k0 = choose|k: int|
                                        0 <= k < before.len() && (#[trigger] before[k]).kind == kind
                                            && before[k].key@ == shelf_key(items@[j], kind);
                                    assert(groups@[k0] == before[k0]);
                                } else {
                                    assert(groups@[last].kind == kind);
                                }
                            }
                        }
                    },
                }
            },
        }
        i += 1;
    }
    proof {
        assert(items@.take(n as int) =~= items@);
    }
}

/// The three reading-progress shelves with their comic counts, in listing
/// order: continue reading, unread, read.
pub fn builtin_counts(items: &Vec<LibraryGridItem>) -> (r: [(&'static str, &'static str, usize); 3])
    ensures
        r[0].0@ == "continue_reading"@ && r[0].1@ == "Continue Reading"@,
        r[1].0@ == "unread"@ && r[1].1@ == "Unread"@,
        r[2].0@ == "read"@ && r[2].1@ == "Read"@,
        r[0].2 == count_members(items@, LibraryGroupKind::Builtin, "continue_reading"@),
        r[1].2 == count_members(items@, LibraryGroupKind::Builtin, "unread"@),
        r[2].2 == count_members(items@, LibraryGroupKind::Builtin, "read"@),
{
    let mut continue_reading: usize = 0;
    let mut unread: usize = 0;
    let mut read: usize = 0;
    let n = items.len();
    let mut i: usize = 0;
    proof {
        reveal_strlit("continue_reading");
        reveal_strlit("unread");
        reveal_strlit("read");
    }
    while i < n
        invariant
            n == items.len(),
            0 <= i <= n,
            continue_reading == count_members(items@.take(i as int), LibraryGroupKind::Builtin, "continue_reading"@),
            unread == count_members(items@.take(i as int), LibraryGroupKind::Builtin, "unread"@),
            read == count_members(items@.take(i as int), LibraryGroupKind::Builtin, "read"@),
        decreases n - i,
    {
        proof {
            reveal_strlit("continue_reading");
            reveal_strlit("unread");
            reveal_strlit("read");
            assert("unread"@.len() != "continue_reading"@.len());
            assert("read"@.len() != "continue_reading"@.len());
            assert("unread"@ != "continue_reading"@);
            assert("read"@ != "continue_reading"@);
            assert("read"@ != "unread"@);
            lemma_count_step(items@, i as int, LibraryGroupKind::Builtin, "continue_reading"@);
            lemma_count_step(items@, i as int, LibraryGroupKind::Builtin, "unread"@);
            lemma_count_step(items@, i as int, LibraryGroupKind::Builtin, "read"@);
            lemma_count_bound(items@.take(i as int), LibraryGroupKind::Builtin, "continue_reading"@);
            lemma_count_bound(items@.take(i as int), LibraryGroupKind::Builtin, "unread"@);
            lemma_count_bound(items@.take(i as int), LibraryGroupKind::Builtin, "read"@);
        }
        if items[i].is_read {
            read += 1;
        } else if items[i].current_page > 0 {
            continue_reading += 1;
        } else {
            unread += 1;
        }
        i += 1;
    }
    proof {
        assert(items@.take(n as int) =~= items@);
    }
    [
        ("continue_reading", "Continue Reading", continue_reading),
        ("unread", "Unread", unread),
        ("read", "Read", read),
    ]
}

/// Compares two shelves in listing order (`compare_groups`).
pub fn compare_groups(a: &LibraryGroup, b: &LibraryGroup) -> (r: i8)
    ensures
        r == group_order(*a, *b),
        group_order(*b, *a) == -r,
{
    proof {
        lemma_lex_antisymmetric(lowercase(a.label@), lowercase(b.label@));
        lemma_lex_antisymmetric(a.key@, b.key@);
    }
    let ra = a.kind.rank_of();
    let rb = b.kind.rank_of();
    if ra != rb {
        return if ra < rb {
            -1
        } else {
            1
        };
    }
    let la = to_lowercase(a.label.as_str());
    let lb = to_lowercase(b.label.as_str());
    let la_chars = chars_of(la.as_str());
    let lb_chars = chars_of(lb.as_str());
    let c = lex_compare(&la_chars, &lb_chars);
    if c != 0 {
        return c;
    }
    let ka = chars_of(a.key.as_str());
    let kb = chars_of(b.key.as_str());
    lex_compare(&ka, &kb)
}

/// Sorts shelves into listing order, keeping exactly the same shelves.
#[verifier::rlimit(50)]
pub fn sort_groups(groups: &mut Vec<LibraryGroup>)
    ensures
        final(groups)@.to_multiset() == old(groups)@.to_multiset(),
        shelves_sorted(final(groups)@),
        shelves_distinct(old(groups)@) ==> shelves_distinct(final(groups)@),
{
    let mut res: Vec<LibraryGroup> = Vec::new();
    let n = groups.len();
    let mut i: usize = 0;
    while i < n
        invariant
            n == groups.len(),
            0 <= i <= n,
            res@.to_multiset() == groups@.take(i as int).to_multiset(),
            shelves_sorted(res@),
            shelves_distinct(groups@) ==> shelves_distinct(res@),
        decreases n - i,
    {
        let x = copy_group(&groups[i]);
        let mut pos = res.len();
        let mut moving = true;
        while moving && pos > 0
            invariant
                pos <= res.len(),
                shelves_sorted(res@),
                pos < res.len() ==> group_order(x, res@[pos as int]) <= 0,
                !moving ==> pos > 0 && group_order(res@[pos - 1], x) <= 0,
            decreases pos + (if moving { 1int } else { 0int }),
        {
            let c = compare_groups(&res[pos - 1], &x);
            if c > 0 {
                pos -= 1;
            } else {
                moving = false;
            }
        }
        let ghost before = res@;
        res.insert(pos, x);
        proof {
            lemma_groups_insert_sorted(before, pos as int, x);
            let src = groups@;
            assert(src.take(i + 1) =~= src.take(i as int).push(src[i as int]));
            vstd::seq_lib::to_multiset_insert(before, pos as int, x);
            vstd::seq_lib::to_multiset_build(src.take(i as int), src[i as int]);
            if shelves_distinct(src) {
                lemma_groups_insert_distinct(src, i as int, before, pos as int, x);
            }
        }
        i += 1;
    }
    assert(groups@.take(n as int) =~= groups@);
    *groups = res;
}

proof fn lemma_groups_insert_sorted(before: Seq<LibraryGroup>, pos: int, x: LibraryGroup)
    requires
        0 <= pos <= before.len(),
        shelves_sorted(before),
        pos < before.len() ==> group_order(x, before[pos]) <= 0,
        pos > 0 ==> group_order(before[pos - 1], x) <= 0,
    ensures
        shelves_sorted(before.insert(pos, x)),
{
    let after = before.insert(pos, x);
    assert forall|k: int| 0 <= k < after.len() - 1 implies group_order(#[trigger] after[k], after[k + 1]) <= 0 by {
        if k < pos - 1 {
            assert(after[k] == before[k]);
            assert(after[k + 1] == before[k + 1]);
        } else if k == pos - 1 {
            assert(after[k] == before[k]);
            assert(after[k + 1] == x);
        } else if k == pos {
            assert(after[k] == x);
            assert(after[k + 1] == before[k]);
        } else {
            assert(after[k] == before[k - 1]);
            assert(after[k + 1] == before[k]);
        }
    }
}

proof fn lemma_groups_insert_distinct(src: Seq<LibraryGroup>, i: int, before: Seq<LibraryGroup>, pos: int, x: LibraryGroup)
    requires
        0 <= i < src.len(),
        0 <= pos <= before.len(),
        shelves_distinct(src),
        shelves_distinct(before),
        x == src[i],
        before.to_multiset() == src.take(i).to_multiset(),
    ensures
        shelves_distinct(before.insert(pos, x)),
{
    let after = before.insert(pos, x);
    assert forall|a: int, b: int|
        0 <= a < after.len() && 0 <= b < after.len() && a != b && (#[trigger] after[a]).kind
            == (#[trigger] after[b]).kind implies after[a].key@ != after[b].key@ by {
        if a == pos || b == pos {
            let other = if a == pos { b } else { a };
            let y = after[other];
            let oi = if other < pos { other } else { other - 1 };
            assert(before[oi] == y);
            lemma_from_prefix(before, src, i, oi);
            let j = choose|j: int| 0 <= j < i && #[trigger] src[j] == before[oi];
            assert(src[j] == y);
        } else {
            let ai = if a < pos { a } else { a - 1 };
            let bi = if b < pos { b } else { b - 1 };
            assert(before[ai] == after[a]);
            assert(before[bi] == after[b]);
        }
    }
}

/// A field-by-field copy of a shelf.
pub fn copy_group(g: &LibraryGroup) -> (r: LibraryGroup)
    ensures
        r == *g,
{
    LibraryGroup { kind: g.kind, key: g.key.clone(), label: g.label.clone(), item_count: g.item_count }
}

proof fn lemma_from_prefix(res: Seq<LibraryGroup>, src: Seq<LibraryGroup>, i: int, k: int)
    requires
        0 <= i <= src.len(),
        0 <= k < res.len(),
        res.to_multiset() == src.take(i).to_multiset(),
    ensures
        exists|j: int| 0 <= j < i && #[trigger] src[j] == res[k],
{
    assert(res.contains(res[k]));
    assert(res.to_multiset().count(res[k]) > 0);
    assert(src.take(i).contains(res[k]));
    let j = choose|j: int| 0 <= j < src.take(i).len() && src.take(i)[j] == res[k];
    assert(src[j] == res[k]);
}


pub(crate) proof fn lemma_member_of_permutation(src: Seq<LibraryGroup>, res: Seq<LibraryGroup>, k: int)
    requires
        res.to_multiset() == src.to_multiset(),
        0 <= k < src.len(),
    ensures
        exists|m: int| 0 <= m < res.len() && #[trigger] res[m] == src[k],
{
    assert(src.contains(src[k]));
    assert(src.to_multiset().count(src[k]) > 0);
    assert(res.contains(src[k]));
}

pub(crate) proof fn lemma_from_permutation(src: Seq<LibraryGroup>, res: Seq<LibraryGroup>, k: int)
    requires
        res.to_multiset() == src.to_multiset(),
        0 <= k < res.len(),
    ensures
        exists|m: int| 0 <= m < src.len() && #[trigger] src[m] == res[k],
{
    assert(res.contains(res[k]));
    assert(res.to_multiset().count(res[k]) > 0);
    assert(src.contains(res[k]));
}

pub(crate) proof fn lemma_listed_permuted(src: Seq<LibraryGroup>, res: Seq<LibraryGroup>, kind: LibraryGroupKind, key: Seq<char>)
    requires
        res.to_multiset() == src.to_multiset(),
        listed(src, kind, key),
    ensures
        listed(res, kind, key),
{
    let k = choose|k: int| 0 <= k < src.len() && (#[trigger] src[k]).kind == kind && src[k].key@ == key;
    lemma_member_of_permutation(src, res, k);
    let m = choose|m: int| 0 <= m < res.len() && #[trigger] res[m] == src[k];
    assert(res[m].kind == kind && res[m].key@ == key);
}

/// Builds the shelf listing of `items`: every series and folder shelf and
/// every non-empty progress shelf, once each, counted, labelled, and sorted
/// into listing order.
pub fn build_groups(items: &Vec<LibraryGridItem>) -> (groups: Vec<LibraryGroup>)
    ensures
        shelves_of(items@, groups@),
{
    let mut groups: Vec<LibraryGroup> = Vec::new();
    tally_shelves(&mut groups, items, LibraryGroupKind::Series);
    let ghost series_part = groups@;
    tally_shelves(&mut groups, items, LibraryGroupKind::Folder);
    let ghost shelved_part = groups@;
    proof {
        assert forall|j: int|
            0 <= j < items.len() && shelved(#[trigger] items@[j], LibraryGroupKind::Series) implies listed(
            groups@,
            LibraryGroupKind::Series,
            shelf_key(items@[j], LibraryGroupKind::Series),
        ) by {
            let k = choose|k: int|
                0 <= k < series_part.len() && (#[trigger] series_part[k]).kind == LibraryGroupKind::Series
                    && series_part[k].key@ == shelf_key(items@[j], LibraryGroupKind::Series);
            assert(groups@[k] == series_part[k]);
        }
    }
    let counts = builtin_counts(items);
    proof {
        reveal_strlit("continue_reading");
        reveal_strlit("unread");
        reveal_strlit("read");
        assert("unread"@.len() != "continue_reading"@.len());
        assert("read"@.len() != "continue_reading"@.len());
        assert("read"@.len() != "unread"@.len());
        assert(counts[0].0@ != counts[1].0@);
        assert(counts[0].0@ != counts[2].0@);
        assert(counts[1].0@ != counts[2].0@);
    }
    let mut b: usize = 0;
    while b < 3
        invariant
            0 <= b <= 3,
            groups.len() >= shelved_part.len(),
            forall|k: int| 0 <= k < shelved_part.len() ==> #[trigger] groups@[k] == shelved_part[k],
            forall|k: int| 0 <= k < shelved_part.len() ==> (#[trigger] shelved_part[k]).kind != LibraryGroupKind::Builtin,
            forall|k: int| 0 <= k < shelved_part.len() ==> shelf_ok(items@, #[trigger] shelved_part[k]),
            shelves_distinct(shelved_part),
            forall|k: int|
                shelved_part.len() <= k < groups.len() ==> (#[trigger] groups@[k]).kind == LibraryGroupKind::Builtin
                    && shelf_ok(items@, groups@[k])
                    && exists|c: int| 0 <= c < b && groups@[k].key@ == (#[trigger] counts[c]).0@,
            forall|a: int, a2: int|
                shelved_part.len() <= a < groups.len() && shelved_part.len() <= a2 < groups.len() && a != a2
                    ==> (#[trigger] groups@[a]).key@ != (#[trigger] groups@[a2]).key@,
            forall|c: int| 0 <= c < b && (#[trigger] counts[c]).2 > 0 ==> listed(groups@, LibraryGroupKind::Builtin, counts[c].0@),
            counts[0].0@ == "continue_reading"@ && counts[0].1@ == "Continue Reading"@,
            counts[1].0@ == "unread"@ && counts[1].1@ == "Unread"@,
            counts[2].0@ == "read"@ && counts[2].1@ == "Read"@,
            counts[0].2 == count_members(items@, LibraryGroupKind::Builtin, "continue_reading"@),
            counts[1].2 == count_members(items@, LibraryGroupKind::Builtin, "unread"@),
            counts[2].2 == count_members(items@, LibraryGroupKind::Builtin, "read"@),
            forall|c1: int, c2: int| 0 <= c1 < 3 && 0 <= c2 < 3 && c1 != c2 ==> (#[trigger] counts[c1]).0@ != (#[trigger] counts[c2]).0@,
        decreases 3 - b,
    {
        let (key, label, count) = counts[b];
        if count > 0 {
            let ghost before = groups@;
            groups.push(LibraryGroup {
                kind: LibraryGroupKind::Builtin,
                key: String::from_str(key),
                label: String::from_str(label),
                item_count: count,
            });
            proof {
                let last = groups.len() - 1;
                assert(groups@[last].key@ == counts[b as int].0@);
                assert(is_builtin_key(groups@[last].key@));
                assert(groups@[last].item_count == count_members(items@, LibraryGroupKind::Builtin, groups@[last].key@)) by {
                    if b == 0 {
                    } else if b == 1 {
                    } else {
                    }
                }
                assert(groups@[last].label@ == builtin_label(groups@[last].key@)) by {
                    reveal_strlit("continue_reading");
                    reveal_strlit("unread");
                    reveal_strlit("read");
                    if b == 0 {
                    } else if b == 1 {
                        assert("unread"@ != "continue_reading"@);
                    } else {
                        assert("read"@ != "continue_reading"@);
                        assert("read"@ != "unread"@);
                    }
                }
                assert(shelf_ok(items@, groups@[last]));
                assert forall|k: int|
                    shelved_part.len() <= k < groups.len() implies (#[trigger] groups@[k]).kind
                    == LibraryGroupKind::Builtin && shelf_ok(items@, groups@[k]) && exists|c: int|
                    0 <= c < b + 1 && groups@[k].key@ == (#[trigger] counts[c]).0@ by {
                    if k < last {
                        assert(groups@[k] == before[k]);
                    } else {
                        assert(groups@[k].key@ == counts[b as int].0@);
                    }
                }
                assert forall|a: int, a2: int|
                    shelved_part.len() <= a < groups.len() && shelved_part.len() <= a2 < groups.len() && a != a2
                        implies (#[trigger] groups@[a]).key@ != (#[trigger] groups@[a2]).key@ by {
                    if a == last || a2 == last {
                        let o = if a == last { a2 } else { a };
                        assert(groups@[o] == before[o]);
                        let c = choose|c: int| 0 <= c < b && before[o].key@ == (#[trigger] counts[c]).0@;
                        assert(c != b);
                    }
                }
                assert forall|c: int| 0 <= c < b + 1 && (#[trigger] counts[c]).2 > 0 implies listed(
                    groups@,
                    LibraryGroupKind::Builtin,
                    counts[c].0@,
                ) by {
                    if c < b {
                        let k = choose|k: int|
                            0 <= k < before.len() && (#[trigger] before[k]).kind == LibraryGroupKind::Builtin
                                && before[k].key@ == counts[c].0@;
                        assert(groups@[k] == before[k]);
                    } else {
                        assert(groups@[last].kind == LibraryGroupKind::Builtin);
                    }
                }
            }
        }
        b += 1;
    }
    let ghost unsorted = groups@;
    proof {
        assert forall|k: int| 0 <= k < unsorted.len() implies shelf_ok(items@, #[trigger] unsorted[k]) by {
            if k < shelved_part.len() {
                assert(unsorted[k] == shelved_part[k]);
            }
        }
        assert(shelves_distinct(unsorted)) by {
            assert forall|a: int, a2: int|
                0 <= a < unsorted.len() && 0 <= a2 < unsorted.len() && a != a2 && (#[trigger] unsorted[a]).kind
                    == (#[trigger] unsorted[a2]).kind implies unsorted[a].key@ != unsorted[a2].key@ by {
                if a < shelved_part.len() && a2 < shelved_part.len() {
                    assert(unsorted[a] == shelved_part[a]);
                    assert(unsorted[a2] == shelved_part[a2]);
                } else if a < shelved_part.len() {
                    assert(unsorted[a] == shelved_part[a]);
                } else if a2 < shelved_part.len() {
                    assert(unsorted[a2] == shelved_part[a2]);
                }
            }
        }
        assert forall|j: int|
            0 <= j < items.len() && shelved(#[trigger] items@[j], LibraryGroupKind::Folder) implies listed(
            unsorted,
            LibraryGroupKind::Folder,
            shelf_key(items@[j], LibraryGroupKind::Folder),
        ) by {
            let k = choose|k: int|
                0 <= k < shelved_part.len() && (#[trigger] shelved_part[k]).kind == LibraryGroupKind::Folder
                    && shelved_part[k].key@ == shelf_key(items@[j], LibraryGroupKind::Folder);
            assert(unsorted[k] == shelved_part[k]);
        }
        assert forall|j: int|
            0 <= j < items.len() && shelved(#[trigger] items@[j], LibraryGroupKind::Series) implies listed(
            unsorted,
            LibraryGroupKind::Series,
            shelf_key(items@[j], LibraryGroupKind::Series),
        ) by {
            let k = choose|k: int|
                0 <= k < shelved_part.len() && (#[trigger] shelved_part[k]).kind == LibraryGroupKind::Series
                    && shelved_part[k].key@ == shelf_key(items@[j], LibraryGroupKind::Series);
            assert(unsorted[k] == shelved_part[k]);
        }
        assert forall|bk: Seq<char>|
            is_builtin_key(bk) && #[trigger] count_members(items@, LibraryGroupKind::Builtin, bk) > 0 implies listed(
            unsorted,
            LibraryGroupKind::Builtin,
            bk,
        ) by {
            if bk == "continue_reading"@ {
                assert(counts[0].2 > 0);
            } else if bk == "unread"@ {
                assert(counts[1].2 > 0);
            } else {
                assert(counts[2].2 > 0);
            }
        }
    }
    sort_groups(&mut groups);
    proof {
        let res = groups@;
        assert forall|k: int| 0 <= k < res.len() implies shelf_ok(items@, #[trigger] res[k]) by {
            lemma_from_permutation(unsorted, res, k);
        }
        assert forall|j: int|
            0 <= j < items.len() && shelved(#[trigger] items@[j], LibraryGroupKind::Series) implies listed(
            res,
            LibraryGroupKind::Series,
            shelf_key(items@[j], LibraryGroupKind::Series),
        ) by {
            lemma_listed_permuted(unsorted, res, LibraryGroupKind::Series, shelf_key(items@[j], LibraryGroupKind::Series));
        }
        assert forall|j: int|
            0 <= j < items.len() && shelved(#[trigger] items@[j], LibraryGroupKind::Folder) implies listed(
            res,
            LibraryGroupKind::Folder,
            shelf_key(items@[j], LibraryGroupKind::Folder),
        ) by {
            lemma_listed_permuted(unsorted, res, LibraryGroupKind::Folder, shelf_key(items@[j], LibraryGroupKind::Folder));
        }
        assert forall|bk: Seq<char>|
            is_builtin_key(bk) && #[trigger] count_members(items@, LibraryGroupKind::Builtin, bk) > 0 implies listed(
            res,
            LibraryGroupKind::Builtin,
            bk,
        ) by {
            lemma_listed_permuted(unsorted, res, LibraryGroupKind::Builtin, bk);
        }
    }
    groups
}

// ---------------------------------------------------------------------------
// Refreshing the progress shelves alone

/// A listed shelf is right as far as the series and folders go: a series or
/// folder shelf is exact, a progress shelf has a progress key and its label,
/// whatever its count.
pub open spec fn catalog_shelf_ok(items: Seq<LibraryGridItem>, g: LibraryGroup) -> bool {
    if g.kind == LibraryGroupKind::Builtin {
        is_builtin_key(g.key@) && g.label@ == builtin_label(g.key@)
    } else {
        shelf_ok(items, g)
    }
}

/// `groups` is the shelf listing of `items` except that the progress shelves
/// may be out of date: which of them are listed and their counts.
pub open spec fn catalog_shelves_of(items: Seq<LibraryGridItem>, groups: Seq<LibraryGroup>) -> bool {
    &&& forall|k: int| 0 <= k < groups.len() ==> catalog_shelf_ok(items, #[trigger] groups[k])
    &&& shelved_cover(items, groups)
    &&& shelves_distinct(groups)
    &&& shelves_sorted(groups)
}

/// While the progress shelves are brought up to date: those whose key is in
/// `done` are exact and listed when non-empty.
spec fn progress_refresh_inv(items: Seq<LibraryGridItem>, groups: Seq<LibraryGroup>, done: Set<Seq<char>>) -> bool {
    &&& forall|k: int| 0 <= k < groups.len() ==> catalog_shelf_ok(items, #[trigger] groups[k])
    &&& forall|k: int|
        0 <= k < groups.len() && (#[trigger] groups[k]).kind == LibraryGroupKind::Builtin && done.contains(
            groups[k].key@,
        ) ==> shelf_ok(items, groups[k])
    &&& shelved_cover(items, groups)
    &&& shelves_distinct(groups)
    &&& forall|b: Seq<char>|
        done.contains(b) && #[trigger] count_members(items, LibraryGroupKind::Builtin, b) > 0 ==> listed(
            groups,
            LibraryGroupKind::Builtin,
            b,
        )
}

/// `new` is `old` with one shelf's count replaced.
proof fn lemma_recount_keeps_order(old: Seq<LibraryGroup>, new: Seq<LibraryGroup>, idx: int)
    requires
        0 <= idx < old.len(),
        new.len() == old.len(),
        forall|k: int| 0 <= k < old.len() && k != idx ==> #[trigger] new[k] == old[k],
        new[idx].kind == old[idx].kind,
        new[idx].key == old[idx].key,
        new[idx].label == old[idx].label,
    ensures
        shelves_sorted(old) ==> shelves_sorted(new),
        forall|kind: LibraryGroupKind, key: Seq<char>| #[trigger] listed(old, kind, key) ==> listed(new, kind, key),
        shelves_distinct(old) ==> shelves_distinct(new),
{
    assert forall|k: int| 0 <= k < new.len() implies (#[trigger] new[k]).kind == old[k].kind && new[k].key@
        == old[k].key@ && new[k].label@ == old[k].label@ by {
        if k != idx {
            assert(new[k] == old[k]);
        }
    }
    assert forall|k: int| 0 <= k < new.len() - 1 implies group_order(#[trigger] new[k], new[k + 1]) == group_order(
        old[k],
        old[k + 1],
    ) by {
        assert(new[k].kind == old[k].kind && new[k].label@ == old[k].label@ && new[k].key@ == old[k].key@);
        assert(new[k + 1].kind == old[k + 1].kind && new[k + 1].label@ == old[k + 1].label@ && new[k + 1].key@
            == old[k + 1].key@);
    }
    assert forall|kind: LibraryGroupKind, key: Seq<char>| #[trigger] listed(old, kind, key) implies listed(
        new,
        kind,
        key,
    ) by {
        let w = choose|w: int| 0 <= w < old.len() && (#[trigger] old[w]).kind == kind && old[w].key@ == key;
        assert(new[w].kind == kind && new[w].key@ == key);
    }
}

/// `new` is `old` without the shelf at `idx`.
proof fn lemma_removal_keeps_listing(old: Seq<LibraryGroup>, idx: int, kind: LibraryGroupKind, key: Seq<char>)
    requires
        0 <= idx < old.len(),
        listed(old, kind, key),
        !(old[idx].kind == kind && old[idx].key@ == key),
    ensures
        listed(old.remove(idx), kind, key),
{
    let new = old.remove(idx);
    let w = choose|w: int| 0 <= w < old.len() && (#[trigger] old[w]).kind == kind && old[w].key@ == key;
    if w < idx {
        assert(new[w] == old[w]);
    } else {
        assert(new[w - 1] == old[w]);
    }
}

/// Brings one progress shelf up to date: drops it when empty, recounts it,
/// or lists it when it became non-empty.
fn update_progress_shelf(
    groups: &mut Vec<LibraryGroup>,
    items: &Vec<LibraryGridItem>,
    key: &str,
    label: &str,
    count: usize,
    Ghost(done): Ghost<Set<Seq<char>>>,
) -> (changed: bool)
    requires
        is_builtin_key(key@),
        label@ == builtin_label(key@),
        count == count_members(items@, LibraryGroupKind::Builtin, key@),
        !done.contains(key@),
        progress_refresh_inv(items@, old(groups)@, done),
    ensures
        progress_refresh_inv(items@, final(groups)@, done.insert(key@)),
        !changed && shelves_sorted(old(groups)@) ==> shelves_sorted(final(groups)@),
{
    let key_s = String::from_str(key);
    let existing = find_group(groups, LibraryGroupKind::Builtin, &key_s);
    let ghost old_groups = groups@;
    let ghost done2 = done.insert(key@);
    match existing {
        Some(idx) => {
            if count == 0 {
                groups.remove(idx);
                proof {
                    let new = groups@;
                    assert(new == old_groups.remove(idx as int));
                    assert forall|k: int| 0 <= k < new.len() implies catalog_shelf_ok(items@, #[trigger] new[k])
                        && ((new[k].kind == LibraryGroupKind::Builtin && done2.contains(new[k].key@)) ==> shelf_ok(
                        items@,
                        new[k],
                    )) by {
                        let o = if k < idx { k } else { k + 1 };
                        assert(new[k] == old_groups[o]);
                        assert(o != idx);
                        if new[k].kind == LibraryGroupKind::Builtin {
                            assert(new[k].key@ != key@);
                        }
                    }
                    assert forall|j: int|
                        0 <= j < items.len() && shelved(#[trigger] items@[j], LibraryGroupKind::Series) implies listed(
                        new,
                        LibraryGroupKind::Series,
                        shelf_key(items@[j], LibraryGroupKind::Series),
                    ) by {
                        lemma_removal_keeps_listing(old_groups, idx as int, LibraryGroupKind::Series, shelf_key(items@[j], LibraryGroupKind::Series));
                    }
                    assert forall|j: int|
                        0 <= j < items.len() && shelved(#[trigger] items@[j], LibraryGroupKind::Folder) implies listed(
                        new,
                        LibraryGroupKind::Folder,
                        shelf_key(items@[j], LibraryGroupKind::Folder),
                    ) by {
                        lemma_removal_keeps_listing(old_groups, idx as int, LibraryGroupKind::Folder, shelf_key(items@[j], LibraryGroupKind::Folder));
                    }
                    assert forall|a: int, b: int|
                        0 <= a < new.len() && 0 <= b < new.len() && a != b && (#[trigger] new[a]).kind
                            == (#[trigger] new[b]).kind implies new[a].key@ != new[b].key@ by {
                        let oa = if a < idx { a } else { a + 1 };
                        let ob = if b < idx { b } else { b + 1 };
                        assert(new[a] == old_groups[oa]);
                        assert(new[b] == old_groups[ob]);
                    }
                    assert forall|b: Seq<char>|
                        done2.contains(b) && #[trigger] count_members(items@, LibraryGroupKind::Builtin, b) > 0 implies listed(
                        new,
                        LibraryGroupKind::Builtin,
                        b,
                    ) by {
                        if b != key@ {
                            lemma_removal_keeps_listing(old_groups, idx as int, LibraryGroupKind::Builtin, b);
                        }
                    }
                }
                true
            } else {
                let g = LibraryGroup {
                    kind: LibraryGroupKind::Builtin,
                    key: groups[idx].key.clone(),
                    label: groups[idx].label.clone(),
                    item_count: count,
                };
                groups.set(idx, g);
                proof {
                    let new = groups@;
                    lemma_recount_keeps_order(old_groups, new, idx as int);
                    assert(shelf_ok(items@, new[idx as int]));
                    assert forall|k: int| 0 <= k < new.len() implies catalog_shelf_ok(items@, #[trigger] new[k])
                        && ((new[k].kind == LibraryGroupKind::Builtin && done2.contains(new[k].key@)) ==> shelf_ok(
                        items@,
                        new[k],
                    )) by {
                        if k != idx {
                            assert(new[k] == old_groups[k]);
                            if new[k].kind == LibraryGroupKind::Builtin {
                                assert(new[k].key@ != key@);
                            }
                        }
                    }
                    assert forall|j: int|
                        0 <= j < items.len() && shelved(#[trigger] items@[j], LibraryGroupKind::Series) implies listed(
                        new,
                        LibraryGroupKind::Series,
                        shelf_key(items@[j], LibraryGroupKind::Series),
                    ) by {
                        assert(listed(old_groups, LibraryGroupKind::Series, shelf_key(items@[j], LibraryGroupKind::Series)));
                    }
                    assert forall|j: int|
                        0 <= j < items.len() && shelved(#[trigger] items@[j], LibraryGroupKind::Folder) implies listed(
                        new,
                        LibraryGroupKind::Folder,
                        shelf_key(items@[j], LibraryGroupKind::Folder),
                    ) by {
                        assert(listed(old_groups, LibraryGroupKind::Folder, shelf_key(items@[j], LibraryGroupKind::Folder)));
                    }
                    assert forall|b: Seq<char>|
                        done2.contains(b) && #[trigger] count_members(items@, LibraryGroupKind::Builtin, b) > 0 implies listed(
                        new,
                        LibraryGroupKind::Builtin,
                        b,
                    ) by {
                        if b == key@ {
                            assert(new[idx as int].kind == LibraryGroupKind::Builtin);
                        } else {
                            assert(listed(old_groups, LibraryGroupKind::Builtin, b));
                        }
                    }
                }
                false
            }
        },
        None => {
            if count == 0 {
                proof {
                    assert forall|k: int|
                        0 <= k < old_groups.len() && (#[trigger] old_groups[k]).kind == LibraryGroupKind::Builtin
                            && done2.contains(old_groups[k].key@) implies shelf_ok(items@, old_groups[k]) by {
                        if old_groups[k].key@ == key@ {
                            assert(listed(old_groups, LibraryGroupKind::Builtin, key@));
                        }
                    }
                }
                false
            } else {
                groups.push(
                    LibraryGroup {
                        kind: LibraryGroupKind::Builtin,
                        key: key_s,
                        label: String::from_str(label),
                        item_count: count,
                    },
                );
                proof {
                    let new = groups@;
                    let last = old_groups.len() as int;
                    assert(new[last].key@ == key@);
                    assert(shelf_ok(items@, new[last]));
                    assert forall|k: int| 0 <= k < new.len() implies catalog_shelf_ok(items@, #[trigger] new[k])
                        && ((new[k].kind == LibraryGroupKind::Builtin && done2.contains(new[k].key@)) ==> shelf_ok(
                        items@,
                        new[k],
                    )) by {
                        if k != last {
                            assert(new[k] == old_groups[k]);
                            if new[k].kind == LibraryGroupKind::Builtin && new[k].key@ == key@ {
                                assert(listed(old_groups, LibraryGroupKind::Builtin, key@));
                            }
                        }
                    }
                    assert forall|kind: LibraryGroupKind, kk: Seq<char>| #[trigger] listed(old_groups, kind, kk) implies listed(
                        new,
                        kind,
                        kk,
                    ) by {
                        let w = choose|w: int| 0 <= w < old_groups.len() && (#[trigger] old_groups[w]).kind == kind && old_groups[w].key@ == kk;
                        assert(new[w] == old_groups[w]);
                    }
                    assert forall|j: int|
                        0 <= j < items.len() && shelved(#[trigger] items@[j], LibraryGroupKind::Series) implies listed(
                        new,
                        LibraryGroupKind::Series,
                        shelf_key(items@[j], LibraryGroupKind::Series),
                    ) by {
                        assert(listed(old_groups, LibraryGroupKind::Series, shelf_key(items@[j], LibraryGroupKind::Series)));
                    }
                    assert forall|j: int|
                        0 <= j < items.len() && shelved(#[trigger] items@[j], LibraryGroupKind::Folder) implies listed(
                        new,
                        LibraryGroupKind::Folder,
                        shelf_key(items@[j], LibraryGroupKind::Folder),
                    ) by {
                        assert(listed(old_groups, LibraryGroupKind::Folder, shelf_key(items@[j], LibraryGroupKind::Folder)));
                    }
                    assert forall|a: int, b: int|
                        0 <= a < new.len() && 0 <= b < new.len() && a != b && (#[trigger] new[a]).kind
                            == (#[trigger] new[b]).kind implies new[a].key@ != new[b].key@ by {
                        if a != last && b != last {
                            assert(new[a] == old_groups[a]);
                            assert(new[b] == old_groups[b]);
                        } else {
                            let o = if a == last { b } else { a };
                            assert(new[o] == old_groups[o]);
                            if new[o].kind == LibraryGroupKind::Builtin && new[o].key@ == key@ {
                                assert(listed(old_groups, LibraryGroupKind::Builtin, key@));
                            }
                        }
                    }
                    assert forall|b: Seq<char>|
                        done2.contains(b) && #[trigger] count_members(items@, LibraryGroupKind::Builtin, b) > 0 implies listed(
                        new,
                        LibraryGroupKind::Builtin,
                        b,
                    ) by {
                        if b == key@ {
                            assert(new[last].kind == LibraryGroupKind::Builtin);
                        } else {
                            assert(listed(old_groups, LibraryGroupKind::Builtin, b));
                        }
                    }
                }
                true
            }
        },
    }
}

/// Brings the three progress shelves of a listing up to date after reading
/// progress changed, leaving the series and folder shelves as they are.
/// Returns whether a progress shelf appeared or disappeared.
pub fn refresh_progress_shelves(groups: &mut Vec<LibraryGroup>, items: &Vec<LibraryGridItem>) -> (changed: bool)
    requires
        catalog_shelves_of(items@, old(groups)@),
    ensures
        shelves_of(items@, final(groups)@),
{
    let counts = builtin_counts(items);
    proof {
        reveal_strlit("continue_reading");
        reveal_strlit("unread");
        reveal_strlit("read");
        reveal_strlit("Continue Reading");
        reveal_strlit("Unread");
        reveal_strlit("Read");
        assert("unread"@.len() != "continue_reading"@.len());
        assert("read"@.len() != "continue_reading"@.len());
        assert("read"@.len() != "unread"@.len());
        assert(progress_refresh_inv(items@, groups@, Set::empty()));
    }
    let (k0, l0, c0) = counts[0];
    let c_a = update_progress_shelf(groups, items, k0, l0, c0, Ghost(Set::empty()));
    let ghost d1 = Set::<Seq<char>>::empty().insert(k0@);
    let (k1, l1, c1) = counts[1];
    let c_b = update_progress_shelf(groups, items, k1, l1, c1, Ghost(d1));
    let ghost d2 = d1.insert(k1@);
    let (k2, l2, c2) = counts[2];
    let c_c = update_progress_shelf(groups, items, k2, l2, c2, Ghost(d2));
    let ghost d3 = d2.insert(k2@);
    let changed = c_a || c_b || c_c;
    let ghost unsorted = groups@;
    proof {
        assert forall|k: int| 0 <= k < unsorted.len() implies shelf_ok(items@, #[trigger] unsorted[k]) by {
            if unsorted[k].kind == LibraryGroupKind::Builtin {
                assert(is_builtin_key(unsorted[k].key@));
                assert(d3.contains(unsorted[k].key@));
            }
        }
        assert forall|bk: Seq<char>|
            is_builtin_key(bk) && #[trigger] count_members(items@, LibraryGroupKind::Builtin, bk) > 0 implies listed(
            unsorted,
            LibraryGroupKind::Builtin,
            bk,
        ) by {
            assert(d3.contains(bk));
        }
    }
    if changed {
        sort_groups(groups);
        proof {
            let res = groups@;
            assert forall|k: int| 0 <= k < res.len() implies shelf_ok(items@, #[trigger] res[k]) by {
                lemma_from_permutation(unsorted, res, k);
            }
            assert forall|j: int|
                0 <= j < items.len() && shelved(#[trigger] items@[j], LibraryGroupKind::Series) implies listed(
                res,
                LibraryGroupKind::Series,
                shelf_key(items@[j], LibraryGroupKind::Series),
            ) by {
                lemma_listed_permuted(unsorted, res, LibraryGroupKind::Series, shelf_key(items@[j], LibraryGroupKind::Series));
            }
            assert forall|j: int|
                0 <= j < items.len() && shelved(#[trigger] items@[j], LibraryGroupKind::Folder) implies listed(
                res,
                LibraryGroupKind::Folder,
                shelf_key(items@[j], LibraryGroupKind::Folder),
            ) by {
                lemma_listed_permuted(unsorted, res, LibraryGroupKind::Folder, shelf_key(items@[j], LibraryGroupKind::Folder));
            }
            assert forall|bk: Seq<char>|
                is_builtin_key(bk) && #[trigger] count_members(items@, LibraryGroupKind::Builtin, bk) > 0 implies listed(
                res,
                LibraryGroupKind::Builtin,
                bk,
            ) by {
                lemma_listed_permuted(unsorted, res, LibraryGroupKind::Builtin, bk);
            }
        }
    }
    changed
}

/// `b` holds the same comics as `a`, with the same titles, series and
/// folders; only reading progress may differ.
pub open spec fn same_catalog(a: Seq<LibraryGridItem>, b: Seq<LibraryGridItem>) -> bool {
    &&& a.len() == b.len()
    &&& forall|i: int|
        0 <= i < a.len() ==> #[trigger] b[i] == (LibraryGridItem {
            is_read: b[i].is_read,
            current_page: b[i].current_page,
            ..a[i]
        })
}

proof fn lemma_same_catalog_counts(a: Seq<LibraryGridItem>, b: Seq<LibraryGridItem>, kind: LibraryGroupKind, key: Seq<char>)
    requires
        same_catalog(a, b),
        kind != LibraryGroupKind::Builtin,
    ensures
        count_members(a, kind, key) == count_members(b, kind, key),
    decreases a.len(),
{
    if a.len() > 0 {
        let n = a.len() - 1;
        assert(b[n] == (LibraryGridItem { is_read: b[n].is_read, current_page: b[n].current_page, ..a[n] }));
        assert(same_catalog(a.drop_last(), b.drop_last())) by {
            assert forall|i: int| 0 <= i < a.drop_last().len() implies #[trigger] b.drop_last()[i] == (LibraryGridItem {
                is_read: b.drop_last()[i].is_read,
                current_page: b.drop_last()[i].current_page,
                ..a.drop_last()[i]
            }) by {
                assert(b[i] == (LibraryGridItem { is_read: b[i].is_read, current_page: b[i].current_page, ..a[i] }));
            }
        }
        lemma_same_catalog_counts(a.drop_last(), b.drop_last(), kind, key);
    }
}

/// Changing only the reading progress of comics leaves their series and
/// folder shelves right: a listing built before the change is, after it, a
/// listing whose progress shelves alone are out of date.
pub proof fn lemma_progress_change_keeps_catalog(a: Seq<LibraryGridItem>, b: Seq<LibraryGridItem>, groups: Seq<LibraryGroup>)
    requires
        shelves_of(a, groups),
        same_catalog(a, b),
    ensures
        catalog_shelves_of(b, groups),
{
    assert forall|i: int| 0 <= i < a.len() implies (#[trigger] b[i]).series == a[i].series && b[i].series_key
        == a[i].series_key && b[i].folder_key == a[i].folder_key && b[i].folder_label == a[i].folder_label by {
        assert(b[i] == (LibraryGridItem { is_read: b[i].is_read, current_page: b[i].current_page, ..a[i] }));
    }
    assert forall|k: int| 0 <= k < groups.len() implies catalog_shelf_ok(b, #[trigger] groups[k]) by {
        let g = groups[k];
        assert(shelf_ok(a, g));
        if g.kind != LibraryGroupKind::Builtin {
            lemma_same_catalog_counts(a, b, g.kind, g.key@);
            let j = choose|j: int|
                #![trigger a[j]]
                0 <= j < a.len() && member(a[j], g.kind, g.key@) && g.label@ == shelf_label(a[j], g.kind)
                    && forall|j2: int| 0 <= j2 < j ==> !member(#[trigger] a[j2], g.kind, g.key@);
            assert(b[j].series == a[j].series);
            assert forall|j2: int| 0 <= j2 < j implies !member(#[trigger] b[j2], g.kind, g.key@) by {
                assert(b[j2].series == a[j2].series);
                assert(!member(a[j2], g.kind, g.key@));
            }
            assert(label_ok(b, g));
        }
    }
    assert forall|j: int|
        0 <= j < b.len() && shelved(#[trigger] b[j], LibraryGroupKind::Series) implies listed(
        groups,
        LibraryGroupKind::Series,
        shelf_key(b[j], LibraryGroupKind::Series),
    ) by {
        assert(b[j].series == a[j].series);
        assert(shelved(a[j], LibraryGroupKind::Series));
    }
    assert forall|j: int|
        0 <= j < b.len() && shelved(#[trigger] b[j], LibraryGroupKind::Folder) implies listed(
        groups,
        LibraryGroupKind::Folder,
        shelf_key(b[j], LibraryGroupKind::Folder),
    ) by {
        assert(b[j].series == a[j].series);
        assert(shelved(a[j], LibraryGroupKind::Folder));
    }
}

/// A series or folder shelf holding a comic is listed wherever the series
/// and folders of `items` are.
pub proof fn lemma_listed_by_member(items: Seq<LibraryGridItem>, groups: Seq<LibraryGroup>, kind: LibraryGroupKind, key: Seq<char>)
    requires
        kind != LibraryGroupKind::Builtin,
        shelved_cover(items, groups),
        count_members(items, kind, key) > 0,
    ensures
        listed(groups, kind, key),
{
    if forall|j: int| 0 <= j < items.len() ==> !member(#[trigger] items[j], kind, key) {
        lemma_count_zero(items, kind, key);
    } else {
        let j = choose|j: int| 0 <= j < items.len() && member(#[trigger] items[j], kind, key);
        assert(shelved(items[j], kind));
    }
}

/// Two listings whose series and folder shelves are each exact for the same
/// comics list the same series and folder shelves.
pub proof fn lemma_same_catalog_shelves(
    items: Seq<LibraryGridItem>,
    a: Seq<LibraryGroup>,
    b: Seq<LibraryGroup>,
    kind: LibraryGroupKind,
    key: Seq<char>,
)
    requires
        kind != LibraryGroupKind::Builtin,
        forall|k: int| 0 <= k < a.len() && (#[trigger] a[k]).kind != LibraryGroupKind::Builtin ==> shelf_ok(items, a[k]),
        forall|k: int| 0 <= k < b.len() && (#[trigger] b[k]).kind != LibraryGroupKind::Builtin ==> shelf_ok(items, b[k]),
        shelved_cover(items, a),
        shelved_cover(items, b),
    ensures
        listed(a, kind, key) <==> listed(b, kind, key),
{
    if listed(a, kind, key) {
        let k = choose|k: int| 0 <= k < a.len() && (#[trigger] a[k]).kind == kind && a[k].key@ == key;
        assert(shelf_ok(items, a[k]));
        lemma_listed_by_member(items, b, kind, key);
    }
    if listed(b, kind, key) {
        let k = choose|k: int| 0 <= k < b.len() && (#[trigger] b[k]).kind == kind && b[k].key@ == key;
        assert(shelf_ok(items, b[k]));
        lemma_listed_by_member(items, a, kind, key);
    }
}

/// Every comic is on exactly one reading-progress shelf: read when marked
/// read; otherwise continue reading once a page past the first was reached,
/// and unread before that.
pub proof fn lemma_one_progress_shelf(it: LibraryGridItem)
    ensures
        it.is_read ==> builtin_member(it, "read"@) && !builtin_member(it, "unread"@) && !builtin_member(
            it,
            "continue_reading"@,
        ),
        !it.is_read && it.current_page > 0 ==> builtin_member(it, "continue_reading"@) && !builtin_member(
            it,
            "unread"@,
        ) && !builtin_member(it, "read"@),
        !it.is_read && it.current_page == 0 ==> builtin_member(it, "unread"@) && !builtin_member(
            it,
            "continue_reading"@,
        ) && !builtin_member(it, "read"@),
{
    reveal_strlit("read");
    reveal_strlit("unread");
    reveal_strlit("continue_reading");
    assert("read"@.len() != "unread"@.len());
    assert("read"@.len() != "continue_reading"@.len());
    assert("unread"@.len() != "continue_reading"@.len());
}

} // verus!
