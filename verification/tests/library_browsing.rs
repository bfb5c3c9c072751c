use cbr_egui::app::browse::compare_items;
use cbr_egui::app::shelves::{build_groups, compare_groups};
use cbr_egui::app::{LibrarySortOption, LibraryViewState};
use cbr_egui::library::{
    ActiveLibraryFilter, ComicAvailability, LibraryGridItem, LibraryGroup, LibraryGroupKind,
    ThumbnailStatus,
};

fn item(comic_id: i64, title: &str) -> LibraryGridItem {
    LibraryGridItem {
        comic_id,
        title: title.to_owned(),
        subtitle: None,
        path: format!("/library/{title}.cbz"),
        source_fingerprint: String::new(),
        page_count: 10,
        thumbnail_status: ThumbnailStatus::Missing,
        availability: ComicAvailability::Available,
        series: None,
        series_key: None,
        folder_label: Some("library".to_owned()),
        folder_key: Some("/library".to_owned()),
        writer: None,
        number: None,
        is_read: false,
        current_page: 0,
    }
}

fn titles(library: &LibraryViewState) -> Vec<String> {
    library
        .visible_items()
        .into_iter()
        .map(|item| item.title.clone())
        .collect()
}

#[test]
fn title_sort_is_natural() {
    let mut library = LibraryViewState::default();
    library.items = vec![item(1, "Issue 10"), item(2, "Issue 2"), item(3, "Issue 1")];
    library.refresh_filter_cache();

    assert_eq!(titles(&library), ["Issue 1", "Issue 2", "Issue 10"]);
    assert_eq!(library.visible_indices(), [2, 1, 0]);
}

#[test]
fn date_added_sort_lists_newest_first() {
    let mut library = LibraryViewState::default();
    library.items = vec![item(1, "A"), item(3, "C"), item(2, "B")];
    library.sort_option = LibrarySortOption::DateAdded;
    library.refresh_filter_cache();

    assert_eq!(titles(&library), ["C", "B", "A"]);
}

#[test]
fn number_sort_puts_unnumbered_comics_last() {
    let mut library = LibraryViewState::default();
    let mut a = item(1, "Alpha");
    a.number = Some("10".to_owned());
    let b = item(2, "Beta");
    let mut c = item(3, "Gamma");
    c.number = Some("2".to_owned());
    library.items = vec![a, b, c];
    library.sort_option = LibrarySortOption::Number;
    library.refresh_filter_cache();

    assert_eq!(titles(&library), ["Gamma", "Alpha", "Beta"]);
}

#[test]
fn series_sort_groups_by_series_then_title() {
    let mut library = LibraryViewState::default();
    let mut a = item(1, "Two");
    a.series = Some("Saga".to_owned());
    let mut b = item(2, "One");
    b.series = Some("Saga".to_owned());
    let c = item(3, "Loose");
    library.items = vec![a, b, c];
    library.sort_option = LibrarySortOption::Series;
    library.refresh_filter_cache();

    assert_eq!(titles(&library), ["Loose", "One", "Two"]);
}

#[test]
fn ties_keep_library_order() {
    let mut library = LibraryViewState::default();
    library.items = vec![item(5, "Same"), item(6, "Same")];
    library.refresh_filter_cache();

    assert_eq!(library.visible_indices(), [0, 1]);
}

#[test]
fn search_matches_title_series_or_writer_ignoring_case() {
    let mut library = LibraryViewState::default();
    let mut a = item(1, "Ordinary");
    a.writer = Some("Brian K. Vaughan".to_owned());
    let mut b = item(2, "Other");
    b.series = Some("Saga".to_owned());
    let c = item(3, "VAUGHAN notes");
    let d = item(4, "Unrelated");
    library.items = vec![a, b, c, d];
    library.search_query = "vaughan".to_owned();
    library.refresh_filter_cache();

    assert_eq!(titles(&library), ["Ordinary", "VAUGHAN notes"]);

    library.search_query = "SAGA".to_owned();
    library.refresh_filter_cache();
    assert_eq!(titles(&library), ["Other"]);
}

#[test]
fn progress_shelves_count_and_filter_by_reading_state() {
    let mut library = LibraryViewState::default();
    let mut started = item(1, "Started");
    started.current_page = 3;
    let mut finished = item(2, "Finished");
    finished.is_read = true;
    let fresh = item(3, "Fresh");
    library.items = vec![started, finished, fresh];
    library.refresh_filter_cache();

    let builtin = library
        .groups()
        .iter()
        .filter(|group| group.kind == LibraryGroupKind::Builtin)
        .map(|group| (group.key.as_str(), group.label.as_str(), group.item_count))
        .collect::<Vec<_>>();
    assert_eq!(
        builtin,
        [
            ("continue_reading", "Continue Reading", 1),
            ("read", "Read", 1),
            ("unread", "Unread", 1)
        ]
    );

    library.active_filter = Some(ActiveLibraryFilter {
        kind: LibraryGroupKind::Builtin,
        key: "continue_reading".to_owned(),
    });
    library.refresh_filter_cache();
    assert_eq!(titles(&library), ["Started"]);
}

#[test]
fn progress_refresh_updates_shelves_without_touching_the_catalog() {
    let mut library = LibraryViewState::default();
    let mut a = item(1, "A");
    a.series = Some("Saga".to_owned());
    a.series_key = Some("saga".to_owned());
    library.items = vec![a, item(2, "B")];
    library.refresh_filter_cache();
    assert!(library
        .groups()
        .iter()
        .all(|group| group.key != "read"));

    library.items[0].is_read = true;
    library.refresh_progress_derived_state();

    let read = library
        .groups()
        .iter()
        .find(|group| group.kind == LibraryGroupKind::Builtin && group.key == "read")
        .expect("read shelf");
    assert_eq!(read.item_count, 1);
    let unread = library
        .groups()
        .iter()
        .find(|group| group.kind == LibraryGroupKind::Builtin && group.key == "unread")
        .expect("unread shelf");
    assert_eq!(unread.item_count, 1);
    assert!(library
        .groups()
        .iter()
        .any(|group| group.kind == LibraryGroupKind::Series && group.key == "saga"));
}

#[test]
fn progress_filter_refreshes_the_visible_list() {
    let mut library = LibraryViewState::default();
    library.items = vec![item(1, "A"), item(2, "B")];
    library.active_filter = Some(ActiveLibraryFilter {
        kind: LibraryGroupKind::Builtin,
        key: "unread".to_owned(),
    });
    library.refresh_filter_cache();
    assert_eq!(titles(&library), ["A", "B"]);

    library.items[1].is_read = true;
    library.refresh_progress_derived_state();

    assert_eq!(titles(&library), ["A"]);
}

#[test]
fn selection_toggles_and_forgets_missing_comics() {
    let mut library = LibraryViewState::default();
    library.items = vec![item(1, "A")];
    library.toggle_selection(1);
    library.toggle_selection(9);
    assert!(library.is_selected(1));
    assert!(library.is_selected(9));

    library.toggle_selection(1);
    assert!(!library.is_selected(1));
    library.toggle_selection(1);

    library.refresh_filter_cache();
    assert!(library.is_selected(1));
    assert!(!library.is_selected(9));
}

#[test]
fn marking_a_comic_read_moves_it_between_shelves() {
    let mut library = LibraryViewState::default();
    library.items = vec![item(1, "A"), item(2, "B")];
    library.refresh_filter_cache();

    library.set_item_read(2, true);

    assert!(library.items[1].is_read);
    assert!(!library.items[0].is_read);
    assert!(library
        .groups()
        .iter()
        .any(|group| group.key == "read" && group.item_count == 1));
}

#[test]
fn shelves_are_listed_by_kind_then_label() {
    let mut a = item(1, "A");
    a.series = Some("Zeta".to_owned());
    a.series_key = Some("zeta".to_owned());
    let mut b = item(2, "B");
    b.series = Some("alpha".to_owned());
    b.series_key = Some("alpha".to_owned());
    let groups = build_groups(&vec![a, b]);

    let kinds = groups.iter().map(|group| group.kind).collect::<Vec<_>>();
    assert_eq!(
        kinds,
        [
            LibraryGroupKind::Builtin,
            LibraryGroupKind::Series,
            LibraryGroupKind::Series,
            LibraryGroupKind::Folder
        ]
    );
    assert_eq!(groups[1].label, "alpha");
    assert_eq!(groups[2].label, "Zeta");
}

#[test]
fn comparisons_are_antisymmetric() {
    let a = item(1, "Issue 2");
    let b = item(2, "Issue 10");
    for sort in [
        LibrarySortOption::Title,
        LibrarySortOption::DateAdded,
        LibrarySortOption::Series,
        LibrarySortOption::Number,
    ] {
        assert_eq!(compare_items(sort, &a, &b), -compare_items(sort, &b, &a));
    }
    let g = LibraryGroup {
        kind: LibraryGroupKind::Series,
        key: "x".to_owned(),
        label: "X".to_owned(),
        item_count: 1,
    };
    let h = LibraryGroup {
        kind: LibraryGroupKind::Folder,
        key: "a".to_owned(),
        label: "A".to_owned(),
        item_count: 1,
    };
    assert_eq!(compare_groups(&g, &h), -1);
    assert_eq!(compare_groups(&h, &g), 1);
}

#[test]
fn recorded_progress_moves_a_comic_to_continue_reading() {
    let mut library = LibraryViewState::default();
    library.items = vec![item(1, "A"), item(2, "B")];
    library.refresh_filter_cache();

    library.record_progress(1, 4, false);

    assert_eq!(library.items[0].current_page, 4);
    assert!(!library.items[0].is_read);
    assert!(library
        .groups()
        .iter()
        .any(|group| group.key == "continue_reading" && group.item_count == 1));

    library.record_progress(1, 9, true);
    assert!(library.items[0].is_read);
    assert!(library
        .groups()
        .iter()
        .any(|group| group.key == "read" && group.item_count == 1));
}
