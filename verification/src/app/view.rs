//! The library browsing state: the comics on display, their shelves, the
//! search and shelf filter, the selection, and the visible order.
use std::collections::HashSet;
use vstd::prelude::*;

use crate::app::browse::{
    arrange_visible, lemma_progress_change_keeps_visible, visible_of, LibrarySortOption,
};
use crate::app::shelves::{
    build_groups, catalog_shelves_of, find_group, lemma_progress_change_keeps_catalog, listed,
    refresh_progress_shelves, same_catalog, shelf_ok, shelves_of,
};
use crate::library::models::{ActiveLibraryFilter, ComicAvailability, LibraryGridItem, LibraryGroup, LibraryGroupKind};
use crate::text::{chars_of, lowercase, to_lowercase};

verus! {

broadcast use vstd::std_specs::hash::group_hash_axioms;

/// Which screen the application shows.
#[derive(Debug, Clone, Default, PartialEq, Eq, Structural)]
pub enum AppState {
    #[default]
    Library,
    Reading(i64),
}

/// How the library lists its comics.
#[derive(Debug, Clone, Copy, Default, PartialEq, Eq, Structural)]
pub enum LibraryViewMode {
    #[default]
    Thumbnails,
    List,
}

/// The ids of the comics of `items`.
pub open spec fn item_ids(items: Seq<LibraryGridItem>) -> Set<i64> {
    Set::new(|id: i64| exists|j: int| 0 <= j < items.len() && (#[trigger] items[j]).comic_id == id)
}

/// The shelf filter after the listing `groups` was rebuilt: kept while its
/// shelf is still listed, dropped otherwise.
pub open spec fn reconciled_filter(
    groups: Seq<LibraryGroup>,
    filter: Option<ActiveLibraryFilter>,
) -> Option<ActiveLibraryFilter> {
    match filter {
        Some(f) => if listed(groups, f.kind, f.key@) {
            Some(f)
        } else {
            None
        },
        None => None,
    }
}

/// The cached parts of the view match the comics: the shelves are the
/// shelves of `items`, the filter names a listed shelf, and `vis` lists the
/// comics the query and the filter show, in the order of `sort`.
pub open spec fn view_consistent(
    items: Seq<LibraryGridItem>,
    query: Seq<char>,
    filter: Option<ActiveLibraryFilter>,
    sort: LibrarySortOption,
    groups: Seq<LibraryGroup>,
    vis: Seq<usize>,
) -> bool {
    &&& shelves_of(items, groups)
    &&& reconciled_filter(groups, filter) == filter
    &&& visible_of(items, lowercase(query), filter, sort, vis)
}

/// Whether a filter narrows the view to a reading-progress shelf.
pub open spec fn progress_filter(filter: Option<ActiveLibraryFilter>) -> bool {
    filter is Some && filter->0.kind == LibraryGroupKind::Builtin
}

/// The cached parts of the view were consistent before reading progress
/// changed: series and folder shelves are right, a series or folder filter
/// names a listed shelf and, unless a progress shelf filters the view, the
/// visible list is right.
pub open spec fn view_progress_stale(
    items: Seq<LibraryGridItem>,
    query: Seq<char>,
    filter: Option<ActiveLibraryFilter>,
    sort: LibrarySortOption,
    groups: Seq<LibraryGroup>,
    vis: Seq<usize>,
) -> bool {
    &&& catalog_shelves_of(items, groups)
    &&& !progress_filter(filter) ==> reconciled_filter(groups, filter) == filter
    &&& !progress_filter(filter) ==> visible_of(items, lowercase(query), filter, sort, vis)
}

/// A view that was consistent stays usable after only the reading progress
/// of its comics changed: refreshing the progress-derived parts is enough.
pub proof fn lemma_progress_change_keeps_view(
    items: Seq<LibraryGridItem>,
    changed: Seq<LibraryGridItem>,
    query: Seq<char>,
    filter: Option<ActiveLibraryFilter>,
    sort: LibrarySortOption,
    groups: Seq<LibraryGroup>,
    vis: Seq<usize>,
)
    requires
        view_consistent(items, query, filter, sort, groups, vis),
        same_catalog(items, changed),
    ensures
        view_progress_stale(changed, query, filter, sort, groups, vis),
{
    lemma_progress_change_keeps_catalog(items, changed, groups);
    if !progress_filter(filter) {
        lemma_progress_change_keeps_visible(items, changed, lowercase(query), filter, sort, vis);
    }
}

/// `ids` with `comic_id` taken out if it is in, put in if it is not.
pub open spec fn toggled(ids: Set<i64>, comic_id: i64) -> Set<i64> {
    if ids.contains(comic_id) {
        ids.remove(comic_id)
    } else {
        ids.insert(comic_id)
    }
}

/// Toggling a comic's selection twice leaves the selection as it was.
pub proof fn lemma_toggle_twice_restores(ids: Set<i64>, comic_id: i64)
    ensures
        toggled(toggled(ids, comic_id), comic_id) == ids,
{
    if ids.contains(comic_id) {
        assert(ids.remove(comic_id).insert(comic_id) =~= ids);
    } else {
        assert(ids.insert(comic_id).remove(comic_id) =~= ids);
    }
}

/// The state of the library screen.
#[derive(Debug, PartialEq)]
pub struct LibraryViewState {
    pub items: Vec<LibraryGridItem>,
    pub selected_comic_id: Option<i64>,
    pub status_text: Option<String>,
    pub view_mode: LibraryViewMode,
    pub sort_option: LibrarySortOption,
    pub search_query: String,
    pub active_filter: Option<ActiveLibraryFilter>,
    pub select_mode: bool,
    pub selected_ids: HashSet<i64>,
    /// The shelf listing, rebuilt by `refresh_filter_cache`.
    pub groups: Vec<LibraryGroup>,
    /// The visible comics in listing order, rebuilt by
    /// `refresh_filter_cache`.
    pub visible_indices: Vec<usize>,
}

impl Default for LibraryViewState {
    fn default() -> (r: Self)
        ensures
            r.items@.len() == 0,
            r.selected_comic_id is None,
            r.status_text is None,
            r.view_mode == LibraryViewMode::Thumbnails,
            r.sort_option == LibrarySortOption::Title,
            r.search_query@.len() == 0,
            r.active_filter is None,
            !r.select_mode,
            r.selected_ids@ == Set::<i64>::empty(),
            r.shelf_list().len() == 0,
            r.visible_list().len() == 0,
    {
        LibraryViewState {
            items: Vec::new(),
            selected_comic_id: None,
            status_text: None,
            view_mode: LibraryViewMode::Thumbnails,
            sort_option: LibrarySortOption::Title,
            search_query: String::new(),
            active_filter: None,
            select_mode: false,
            selected_ids: HashSet::new(),
            groups: Vec::new(),
            visible_indices: Vec::new(),
        }
    }
}

/// The comics at the in-range indices of `vis`, in that order.
pub open spec fn items_at(items: Seq<LibraryGridItem>, vis: Seq<usize>) -> Seq<LibraryGridItem>
    decreases vis.len(),
{
    if vis.len() == 0 {
        Seq::empty()
    } else {
        let rest = items_at(items, vis.drop_last());
        if vis.last() < items.len() {
            rest.push(items[vis.last() as int])
        } else {
            rest
        }
    }
}

impl LibraryViewState {
    /// The cached shelf listing.
    pub open spec fn shelf_list(&self) -> Seq<LibraryGroup> {
        self.groups@
    }

    /// The cached visible indices.
    pub open spec fn visible_list(&self) -> Seq<usize> {
        self.visible_indices@
    }

    /// The cached listing and visible list match the comics, the query, the
    /// filter and the sort option.
    pub open spec fn consistent(&self) -> bool {
        view_consistent(
            self.items@,
            self.search_query@,
            self.active_filter,
            self.sort_option,
            self.shelf_list(),
            self.visible_list(),
        )
    }

    /// Only reading progress changed since the view was consistent.
    pub open spec fn progress_stale(&self) -> bool {
        view_progress_stale(
            self.items@,
            self.search_query@,
            self.active_filter,
            self.sort_option,
            self.shelf_list(),
            self.visible_list(),
        )
    }

    /// Adds a comic to the selection, or takes it out if it was selected.
    pub fn toggle_selection(&mut self, comic_id: i64)
        ensures
            final(self).selected_ids@ == toggled(old(self).selected_ids@, comic_id),
            *final(self) == (LibraryViewState { selected_ids: final(self).selected_ids, ..*old(self) }),
    {
        if !self.selected_ids.insert(comic_id) {
            self.selected_ids.remove(&comic_id);
        }
    }

    pub fn is_selected(&self, comic_id: i64) -> (r: bool)
        ensures
            r == self.selected_ids@.contains(comic_id),
    {
        self.selected_ids.contains(&comic_id)
    }

    /// The shelves of the library, in listing order.
    pub fn groups(&self) -> (r: &[LibraryGroup])
        ensures
            r@ == self.shelf_list(),
    {
        self.groups.as_slice()
    }

    /// The indices of the visible comics, in listing order.
    pub fn visible_indices(&self) -> (r: &[usize])
        ensures
            r@ == self.visible_list(),
    {
        self.visible_indices.as_slice()
    }

    /// The visible comics, in listing order.
    pub fn visible_items(&self) -> (r: Vec<&LibraryGridItem>)
        ensures
            r.len() == items_at(self.items@, self.visible_list()).len(),
            forall|k: int| 0 <= k < r.len() ==> *#[trigger] r@[k] == items_at(self.items@, self.visible_list())[k],
    {
        let mut r: Vec<&LibraryGridItem> = Vec::new();
        let n = self.visible_indices.len();
        let mut i: usize = 0;
        while i < n
            invariant
                n == self.visible_indices.len(),
                0 <= i <= n,
                r.len() == items_at(self.items@, self.visible_indices@.take(i as int)).len(),
                forall|k: int|
                    0 <= k < r.len() ==> *#[trigger] r@[k] == items_at(self.items@, self.visible_indices@.take(i as int))[k],
            decreases n - i,
        {
            let index = self.visible_indices[i];
            proof {
                assert(self.visible_indices@.take(i + 1).drop_last() =~= self.visible_indices@.take(i as int));
            }
            if index < self.items.len() {
                r.push(&self.items[index]);
            }
            i += 1;
        }
        proof {
            assert(self.visible_indices@.take(n as int) =~= self.visible_indices@);
        }
        r
    }

    /// Drops the shelf filter when its shelf is no longer listed.
    pub fn reconcile_active_filter(&mut self)
        ensures
            *final(self) == (LibraryViewState {
                active_filter: reconciled_filter(old(self).shelf_list(), old(self).active_filter),
                ..*old(self)
            }),
    {
        let keep = match &self.active_filter {
            None => true,
            Some(filter) => find_group(&self.groups, filter.kind, &filter.key).is_some(),
        };
        if !keep {
            self.active_filter = None;
        }
    }

    /// Rebuilds the cached parts of the view from the comics: drops selected
    /// ids no comic has, rebuilds the shelves, drops a filter whose shelf is
    /// gone, and lists the comics the search and the filter show in the order
    /// of the sort option.
    pub fn refresh_filter_cache(&mut self)
        ensures
            final(self).selected_ids@ == old(self).selected_ids@.intersect(item_ids(old(self).items@)),
            shelves_of(old(self).items@, final(self).shelf_list()),
            final(self).active_filter == reconciled_filter(final(self).shelf_list(), old(self).active_filter),
            final(self).consistent(),
            *final(self) == (LibraryViewState {
                selected_ids: final(self).selected_ids,
                active_filter: final(self).active_filter,
                groups: final(self).groups,
                visible_indices: final(self).visible_indices,
                ..*old(self)
            }),
    {
        let mut kept: HashSet<i64> = HashSet::new();
        let n = self.items.len();
        let mut i: usize = 0;
        while i < n
            invariant
                n == self.items.len(),
                0 <= i <= n,
                kept@ == self.selected_ids@.intersect(item_ids(self.items@.take(i as int))),
            decreases n - i,
        {
            let id = self.items[i].comic_id;
            proof {
                assert(item_ids(self.items@.take(i + 1)) =~= item_ids(self.items@.take(i as int)).insert(id)) by {
                    assert forall|x: i64| item_ids(self.items@.take(i + 1)).contains(x) implies item_ids(
                        self.items@.take(i as int),
                    ).insert(id).contains(x) by {
                        let j = choose|j: int|
                            0 <= j < self.items@.take(i + 1).len() && (#[trigger] self.items@.take(i + 1)[j]).comic_id
                                == x;
                        if j < i {
                            assert(self.items@.take(i as int)[j] == self.items@.take(i + 1)[j]);
                        }
                    }
                    assert forall|x: i64| item_ids(self.items@.take(i as int)).insert(id).contains(x) implies item_ids(
                        self.items@.take(i + 1),
                    ).contains(x) by {
                        if x == id {
                            assert(self.items@.take(i + 1)[i as int].comic_id == x);
                        } else {
                            let j = choose|j: int|
                                0 <= j < self.items@.take(i as int).len() && (#[trigger] self.items@.take(
                                    i as int,
                                )[j]).comic_id == x;
                            assert(self.items@.take(i + 1)[j] == self.items@.take(i as int)[j]);
                        }
                    }
                }
            }
            if self.selected_ids.contains(&id) {
                kept.insert(id);
            }
            proof {
                assert(kept@ =~= self.selected_ids@.intersect(item_ids(self.items@.take(i + 1))));
            }
            i += 1;
        }
        proof {
            assert(self.items@.take(n as int) =~= self.items@);
        }
        self.selected_ids = kept;
        self.groups = build_groups(&self.items);
        self.reconcile_active_filter();
        let low = to_lowercase(self.search_query.as_str());
        let query = chars_of(low.as_str());
        self.visible_indices = arrange_visible(&self.items, &query, &self.active_filter, self.sort_option);
    }

    /// Refreshes what reading progress decides after only progress changed:
    /// the whole view when a progress shelf filters it, otherwise only the
    /// progress shelves.
    pub fn refresh_progress_derived_state(&mut self)
        requires
            old(self).progress_stale(),
        ensures
            final(self).consistent(),
            final(self).items == old(self).items,
            final(self).active_filter == reconciled_filter(final(self).shelf_list(), old(self).active_filter),
            final(self).selected_ids@ == (if progress_filter(old(self).active_filter) {
                old(self).selected_ids@.intersect(item_ids(old(self).items@))
            } else {
                old(self).selected_ids@
            }),
            final(self).search_query == old(self).search_query,
            final(self).sort_option == old(self).sort_option,
            final(self).view_mode == old(self).view_mode,
            final(self).status_text == old(self).status_text,
            final(self).select_mode == old(self).select_mode,
            final(self).selected_comic_id == old(self).selected_comic_id,
            forall|kind: LibraryGroupKind, key: Seq<char>|
                kind != LibraryGroupKind::Builtin ==> (listed(final(self).shelf_list(), kind, key) <==> listed(
                    old(self).shelf_list(),
                    kind,
                    key,
                )),
            !progress_filter(old(self).active_filter) ==> final(self).visible_list() == old(self).visible_list()
                && final(self).active_filter == old(self).active_filter,
    {
        let builtin_filter_active = match &self.active_filter {
            Some(filter) => filter.kind == LibraryGroupKind::Builtin,
            None => false,
        };
        if builtin_filter_active {
            self.refresh_filter_cache();
        } else {
            self.refresh_builtin_group_counts();
        }
        proof {
            assert forall|kind: LibraryGroupKind, key: Seq<char>|
                kind != LibraryGroupKind::Builtin implies (listed(self.shelf_list(), kind, key) <==> listed(
                old(self).shelf_list(),
                kind,
                key,
            )) by {
                crate::app::shelves::lemma_same_catalog_shelves(
                    self.items@,
                    self.shelf_list(),
                    old(self).shelf_list(),
                    kind,
                    key,
                );
            }
        }
    }

    fn refresh_builtin_group_counts(&mut self)
        requires
            old(self).progress_stale(),
            !progress_filter(old(self).active_filter),
        ensures
            final(self).consistent(),
            final(self).active_filter == old(self).active_filter,
            *final(self) == (LibraryViewState { groups: final(self).groups, ..*old(self) }),
    {
        let ghost old_groups = self.groups@;
        let changed = refresh_progress_shelves(&mut self.groups, &self.items);
        proof {
            if self.active_filter is Some {
                let f = self.active_filter->0;
                let k = choose|k: int|
                    0 <= k < old_groups.len() && (#[trigger] old_groups[k]).kind == f.kind && old_groups[k].key@
                        == f.key@;
                assert(shelf_ok(self.items@, old_groups[k]));
                crate::app::shelves::lemma_listed_by_member(self.items@, self.groups@, f.kind, f.key@);
            }
        }
        if changed {
            self.reconcile_active_filter();
        }
    }

    /// Removes the comics that are unavailable and refreshes the view;
    /// returns how many were removed.
    pub fn purge_unavailable(&mut self) -> (r: usize)
        ensures
            final(self).items@ == old(self).items@.filter(
                |it: LibraryGridItem| it.availability == ComicAvailability::Available,
            ),
            r == old(self).items@.len() - final(self).items@.len(),
            final(self).consistent(),
            final(self).selected_ids@ == old(self).selected_ids@.intersect(item_ids(final(self).items@)),
    {
        let ghost pred = |it: LibraryGridItem| it.availability == ComicAvailability::Available;
        let before = self.items.len();
        let mut rest: Vec<LibraryGridItem> = Vec::new();
        std::mem::swap(&mut rest, &mut self.items);
        let ghost all = rest@;
        let mut kept: Vec<LibraryGridItem> = Vec::new();
        let mut i: usize = 0;
        while rest.len() > 0
            invariant
                all.len() == before,
                i + rest.len() == before,
                rest@ == all.skip(i as int),
                kept@ == all.take(i as int).filter(pred),
                forall|x: LibraryGridItem| #[trigger] pred(x) == (x.availability == ComicAvailability::Available),
            decreases rest.len(),
        {
            let it = rest.remove(0);
            proof {
                assert(all.take(i + 1).drop_last() =~= all.take(i as int));
                assert(all.take(i + 1).last() == it);
                assert(rest@ =~= all.skip(i + 1));
            }
            let ghost keep_it = it.availability == ComicAvailability::Available;
            proof {
                assert(pred(it) == keep_it);
                assert(all.take(i + 1) =~= all.take(i as int).push(it));
                all.take(i as int).lemma_filter_push(it, pred);
            }
            if it.availability == ComicAvailability::Available {
                kept.push(it);
            }
            i += 1;
        }
        proof {
            assert(all.take(before as int) =~= all);
        }
        self.items = kept;
        let after = self.items.len();
        self.refresh_filter_cache();
        before - after
    }

    /// Marks the first comic with `comic_id` read or unread and refreshes the
    /// view.
    pub fn set_item_read(&mut self, comic_id: i64, is_read: bool)
        ensures
            final(self).items@.len() == old(self).items@.len(),
            forall|j: int|
                0 <= j < old(self).items@.len() ==> #[trigger] final(self).items@[j] == if j == first_with_id(
                    old(self).items@,
                    comic_id,
                ) {
                    LibraryGridItem { is_read, ..old(self).items@[j] }
                } else {
                    old(self).items@[j]
                },
            final(self).consistent(),
    {
        let n = self.items.len();
        let mut i: usize = 0;
        while i < n
            invariant
                n == self.items.len(),
                self.items@ == old(self).items@,
                0 <= i <= n,
                forall|j: int| 0 <= j < i ==> (#[trigger] self.items@[j]).comic_id != comic_id,
            decreases n - i,
        {
            if self.items[i].comic_id == comic_id {
                let mut rest: Vec<LibraryGridItem> = Vec::new();
                std::mem::swap(&mut rest, &mut self.items);
                let mut item = rest.remove(i);
                item.is_read = is_read;
                rest.insert(i, item);
                self.items = rest;
                proof {
                    assert(first_with_id(old(self).items@, comic_id) == i as int) by {
                        lemma_first_with_id(old(self).items@, comic_id, i as int);
                    }
                }
                self.refresh_filter_cache();
                return;
            }
            i += 1;
        }
        proof {
            lemma_first_with_id_absent(old(self).items@, comic_id);
        }
        self.refresh_filter_cache();
    }
    /// Takes in a comic's saved reading position: the first comic with
    /// `comic_id` gets the page and the read mark, and only what reading
    /// progress decides is refreshed.
    pub fn record_progress(&mut self, comic_id: i64, current_page: u32, is_read: bool)
        requires
            old(self).consistent(),
        ensures
            final(self).items@.len() == old(self).items@.len(),
            forall|j: int|
                0 <= j < old(self).items@.len() ==> #[trigger] final(self).items@[j] == if j == first_with_id(
                    old(self).items@,
                    comic_id,
                ) {
                    LibraryGridItem { current_page, is_read, ..old(self).items@[j] }
                } else {
                    old(self).items@[j]
                },
            final(self).consistent(),
            final(self).search_query == old(self).search_query,
            final(self).sort_option == old(self).sort_option,
            final(self).view_mode == old(self).view_mode,
    {
        let n = self.items.len();
        let mut i: usize = 0;
        while i < n
            invariant
                n == self.items.len(),
                self.items@ == old(self).items@,
                *self == *old(self),
                old(self).consistent(),
                0 <= i <= n,
                forall|j: int| 0 <= j < i ==> (#[trigger] self.items@[j]).comic_id != comic_id,
            decreases n - i,
        {
            if self.items[i].comic_id == comic_id {
                let mut rest: Vec<LibraryGridItem> = Vec::new();
                std::mem::swap(&mut rest, &mut self.items);
                let mut item = rest.remove(i);
                item.current_page = current_page;
                item.is_read = is_read;
                rest.insert(i, item);
                self.items = rest;
                proof {
                    assert(first_with_id(old(self).items@, comic_id) == i as int) by {
                        lemma_first_with_id(old(self).items@, comic_id, i as int);
                    }
                    assert(same_catalog(old(self).items@, self.items@)) by {
                        assert forall|j: int| 0 <= j < old(self).items@.len() implies #[trigger] self.items@[j] == (
                        LibraryGridItem {
                            is_read: self.items@[j].is_read,
                            current_page: self.items@[j].current_page,
                            ..old(self).items@[j]
                        }) by {}
                    }
                    lemma_progress_change_keeps_view(
                        old(self).items@,
                        self.items@,
                        self.search_query@,
                        self.active_filter,
                        self.sort_option,
                        self.shelf_list(),
                        self.visible_list(),
                    );
                }
                self.refresh_progress_derived_state();
                return;
            }
            i += 1;
        }
        proof {
            lemma_first_with_id_absent(old(self).items@, comic_id);
        }
    }
}

/// The index of the first comic of `items` with `comic_id`, or `items.len()`
/// when there is none.
pub open spec fn first_with_id(items: Seq<LibraryGridItem>, comic_id: i64) -> int
    decreases items.len(),
{
    if items.len() == 0 {
        0
    } else if items[0].comic_id == comic_id {
        0
    } else {
        1 + first_with_id(items.drop_first(), comic_id)
    }
}

proof fn lemma_first_with_id(items: Seq<LibraryGridItem>, comic_id: i64, i: int)
    requires
        0 <= i < items.len(),
        items[i].comic_id == comic_id,
        forall|j: int| 0 <= j < i ==> (#[trigger] items[j]).comic_id != comic_id,
    ensures
        first_with_id(items, comic_id) == i,
    decreases i,
{
    if i > 0 {
        assert forall|j: int| 0 <= j < i - 1 implies (#[trigger] items.drop_first()[j]).comic_id != comic_id by {
            assert(items.drop_first()[j] == items[j + 1]);
        }
        lemma_first_with_id(items.drop_first(), comic_id, i - 1);
    }
}

proof fn lemma_first_with_id_absent(items: Seq<LibraryGridItem>, comic_id: i64)
    requires
        forall|j: int| 0 <= j < items.len() ==> (#[trigger] items[j]).comic_id != comic_id,
    ensures
        first_with_id(items, comic_id) == items.len(),
    decreases items.len(),
{
    if items.len() > 0 {
        assert forall|j: int| 0 <= j < items.drop_first().len() implies (#[trigger] items.drop_first()[j]).comic_id != comic_id by {
            assert(items.drop_first()[j] == items[j + 1]);
        }
        lemma_first_with_id_absent(items.drop_first(), comic_id);
    }
}

} // verus!
