use cbr_egui::app::labels::{
    empty_library_text, scanned_comics_to_grid_items, SettingsWindowState,
};
use cbr_egui::app::session::{grid_item_open_error, reconcile_decode, set_current_page, Reconciled};
use cbr_egui::cache::{CachedPage, PageTextureCache};
use cbr_egui::app::{LibraryViewMode, LibraryViewState, PrefetchRuntime};
use cbr_egui::decode::{CancellationToken, DecodeError, DecodePurpose, DecodeRequestId};
use cbr_egui::viewer::{PageId, PageStatus, PixelSize, ViewerState};
use cbr_egui::library::{
    metadata_subtitle, ActiveLibraryFilter, ComicAvailability, ComicMetadataDisplay,
    LibraryGridItem, LibraryGroupKind, ScannedComic, ThumbnailStatus,
};

fn grid_item(comic_id: i64, title: &str, path: &str) -> LibraryGridItem {
    LibraryGridItem {
        comic_id,
        title: title.to_owned(),
        subtitle: None,
        path: path.to_owned(),
        source_fingerprint: format!("fingerprint-{comic_id}"),
        page_count: 12,
        thumbnail_status: ThumbnailStatus::Missing,
        availability: ComicAvailability::Available,
        series: None,
        series_key: None,
        folder_label: std::path::Path::new(path)
            .parent()
            .and_then(|parent| parent.file_name())
            .and_then(|value| value.to_str())
            .map(str::to_owned),
        folder_key: std::path::Path::new(path)
            .parent()
            .map(|parent| parent.to_string_lossy().into_owned()),
        writer: None,
        number: None,
        is_read: false,
        current_page: 0,
    }
}

fn series_item(comic_id: i64, title: &str, series: &str, path: &str) -> LibraryGridItem {
    let mut item = grid_item(comic_id, title, path);
    item.series = Some(series.to_owned());
    item.series_key = Some(
        series
            .split_whitespace()
            .collect::<Vec<_>>()
            .join(" ")
            .to_lowercase(),
    );
    item.subtitle = Some("Issue #1 - Writer".to_owned());
    item
}

#[test]
fn library_view_mode_defaults_to_thumbnails_and_can_switch_to_list() {
    let mut library = LibraryViewState::default();

    assert_eq!(library.view_mode, LibraryViewMode::Thumbnails);

    library.view_mode = LibraryViewMode::List;

    assert_eq!(library.view_mode, LibraryViewMode::List);
}

#[test]
fn unavailable_comics_do_not_open_reader() {
    let mut item = grid_item(42, "Book", "/library/book.cbz");
    item.availability = ComicAvailability::Unavailable;

    assert_eq!(grid_item_open_error(&item), Some("Comic is unavailable"));
}

#[test]
fn empty_library_has_visible_startup_message() {
    let (title, detail) = empty_library_text();

    assert_eq!(title, "No library loaded");
    assert!(detail.contains("library root"));
}

#[test]
fn scanned_comics_become_available_grid_items() {
    let items = scanned_comics_to_grid_items(&[ScannedComic {
        path: "/library/My Book.cbz".to_owned(),
        fingerprint: "fingerprint".to_owned(),
        page_count: 24,
        metadata: None,
    }]);

    assert_eq!(items.len(), 1);
    assert_eq!(items[0].title, "My Book");
    assert_eq!(items[0].page_count, 24);
    assert_eq!(items[0].availability, ComicAvailability::Available);
    assert_eq!(items[0].thumbnail_status, ThumbnailStatus::Missing);
    assert_eq!(items[0].subtitle, None);
    assert_eq!(items[0].folder_label.as_deref(), Some("library"));
}

#[test]
fn metadata_subtitle_omits_missing_fields_cleanly() {
    assert_eq!(
        metadata_subtitle(&ComicMetadataDisplay {
            number: Some("12".to_owned()),
            writer: Some("Brian K. Vaughan".to_owned()),
            ..ComicMetadataDisplay::default()
        })
        .as_deref(),
        Some("Issue #12 - Brian K. Vaughan")
    );
    assert_eq!(
        metadata_subtitle(&ComicMetadataDisplay {
            number: Some("12".to_owned()),
            ..ComicMetadataDisplay::default()
        })
        .as_deref(),
        Some("Issue #12")
    );
    assert_eq!(
        metadata_subtitle(&ComicMetadataDisplay {
            writer: Some("Brian K. Vaughan".to_owned()),
            ..ComicMetadataDisplay::default()
        })
        .as_deref(),
        Some("Brian K. Vaughan")
    );
    assert_eq!(
        metadata_subtitle(&ComicMetadataDisplay {
            penciller: Some("Fiona Staples".to_owned()),
            ..ComicMetadataDisplay::default()
        })
        .as_deref(),
        Some("Fiona Staples")
    );
    assert_eq!(metadata_subtitle(&ComicMetadataDisplay::default()), None);
}

#[test]
fn library_groups_normalize_series_names_and_count_items() {
    let mut library = LibraryViewState::default();
    library.items = vec![
        series_item(1, "Saga 1", "Saga", "/library/Saga/Saga 001.cbz"),
        series_item(2, "Saga 2", "  saga  ", "/library/Saga/Saga 002.cbz"),
        series_item(
            3,
            "Paper Girls 1",
            "Paper Girls",
            "/library/Paper Girls/001.cbz",
        ),
    ];
    library.refresh_filter_cache();

    let groups = library.groups();
    let saga = groups
        .iter()
        .find(|group| group.kind == LibraryGroupKind::Series && group.key == "saga")
        .expect("saga group");

    assert_eq!(saga.item_count, 2);
    assert_eq!(saga.label, "Saga");
}

#[test]
fn library_filter_uses_folder_fallback_for_items_without_series() {
    let mut library = LibraryViewState::default();
    library.items = vec![
        grid_item(1, "Loose 1", "/library/Loose/a.cbz"),
        grid_item(2, "Loose 2", "/library/Loose/b.cbz"),
        series_item(3, "Saga 1", "Saga", "/library/Saga/001.cbz"),
    ];
    library.active_filter = Some(ActiveLibraryFilter {
        kind: LibraryGroupKind::Folder,
        key: "/library/Loose".to_owned(),
    });
    library.refresh_filter_cache();

    let visible = library.visible_items();

    assert_eq!(visible.len(), 2);
    assert!(visible
        .iter()
        .all(|item| item.folder_label.as_deref() == Some("Loose")));
}

#[test]
fn invalid_active_filter_is_cleared_after_library_refresh() {
    let mut library = LibraryViewState::default();
    library.items = vec![series_item(1, "Saga 1", "Saga", "/library/Saga/001.cbz")];
    library.active_filter = Some(ActiveLibraryFilter {
        kind: LibraryGroupKind::Series,
        key: "paper girls".to_owned(),
    });

    library.refresh_filter_cache();

    assert_eq!(library.active_filter, None);
}

#[test]
fn filtered_visible_item_opens_and_unavailable_filtered_item_is_blocked() {
    let mut library = LibraryViewState::default();
    let available = series_item(1, "Saga 1", "Saga", "/library/Saga/001.cbz");
    let mut unavailable = series_item(2, "Saga Missing", "Saga", "/library/Saga/missing.cbz");
    unavailable.availability = ComicAvailability::Unavailable;
    library.items = vec![available.clone(), unavailable.clone()];
    library.active_filter = Some(ActiveLibraryFilter {
        kind: LibraryGroupKind::Series,
        key: "saga".to_owned(),
    });
    library.refresh_filter_cache();

    let visible = library.visible_items();

    assert_eq!(visible.len(), 2);
    assert_eq!(grid_item_open_error(&available), None);
    assert_eq!(
        grid_item_open_error(&unavailable),
        Some("Comic is unavailable")
    );
}

#[test]
fn view_mode_switch_preserves_active_filter() {
    let mut library = LibraryViewState::default();
    library.active_filter = Some(ActiveLibraryFilter {
        kind: LibraryGroupKind::Series,
        key: "saga".to_owned(),
    });

    library.view_mode = LibraryViewMode::List;
    library.view_mode = LibraryViewMode::Thumbnails;

    assert_eq!(
        library.active_filter,
        Some(ActiveLibraryFilter {
            kind: LibraryGroupKind::Series,
            key: "saga".to_owned(),
        })
    );
}

#[test]
fn filtering_preserves_thumbnail_state_on_visible_items() {
    let mut library = LibraryViewState::default();
    let mut visible = series_item(1, "Saga 1", "Saga", "/library/Saga/001.cbz");
    visible.thumbnail_status = ThumbnailStatus::Loading;
    library.items = vec![
        visible,
        series_item(
            2,
            "Paper Girls 1",
            "Paper Girls",
            "/library/Paper Girls/001.cbz",
        ),
    ];
    library.active_filter = Some(ActiveLibraryFilter {
        kind: LibraryGroupKind::Series,
        key: "saga".to_owned(),
    });
    library.refresh_filter_cache();

    let visible = library.visible_items();

    assert_eq!(visible.len(), 1);
    assert_eq!(visible[0].thumbnail_status, ThumbnailStatus::Loading);
}

#[test]
fn settings_window_state_can_open_and_close() {
    let mut settings = SettingsWindowState::default();

    settings.open = true;
    assert!(settings.open);
    settings.open = false;
    assert!(!settings.open);
}

#[test]
fn app_can_purge_unavailable_items_from_library_view() {
    let mut library = LibraryViewState::default();
    library.items = vec![
        {
            let mut item = grid_item(1, "Available", "/library/a.cbz");
            item.page_count = 1;
            item
        },
        {
            let mut item = grid_item(2, "Missing", "/library/missing.cbz");
            item.page_count = 1;
            item.availability = ComicAvailability::Unavailable;
            item
        },
    ];

    assert_eq!(library.purge_unavailable(), 1);
    assert_eq!(library.items.len(), 1);
    assert_eq!(library.items[0].title, "Available");
}

#[test]
fn return_to_library_cancels_outstanding_prefetch_work() {
    let mut prefetch = PrefetchRuntime::default();
    let token = CancellationToken::new();
    prefetch.track_in_flight(2, DecodeRequestId(1), DecodePurpose::Prefetch, token.clone());

    prefetch.cancel_all();

    assert!(token.is_cancelled());
    assert!(prefetch.in_flight.is_empty());
    assert!(!prefetch.has_work());
}

#[test]
fn large_page_jump_cancels_stale_in_flight_prefetches() {
    let mut prefetch = PrefetchRuntime::default();
    let current = set_current_page(&mut prefetch, 0, 2, 60);
    let page_three = CancellationToken::new();
    let page_four = CancellationToken::new();
    prefetch.track_in_flight(3, DecodeRequestId(3), DecodePurpose::Prefetch, page_three.clone());
    prefetch.track_in_flight(4, DecodeRequestId(4), DecodePurpose::Prefetch, page_four.clone());

    let current = set_current_page(&mut prefetch, current, 50, 60);
    let mut cancelled = prefetch.cancel_stale(current, 60, &Vec::new());
    cancelled.sort_unstable();

    assert_eq!(current, 50);
    assert_eq!(cancelled, [3, 4]);
    assert!(page_three.is_cancelled());
    assert!(page_four.is_cancelled());
    assert!(prefetch.in_flight.is_empty());
}

#[test]
fn cancelled_prefetch_result_does_not_enter_texture_cache() {
    let mut prefetch = PrefetchRuntime::default();
    let token = CancellationToken::new();
    prefetch.track_in_flight(2, DecodeRequestId(88), DecodePurpose::Prefetch, token.clone());
    token.cancel();

    let fresh = prefetch.complete_fresh_request(DecodeRequestId(88), 2);

    assert!(fresh.is_none());
    assert!(prefetch.in_flight.is_empty());
}

#[test]
fn stale_generation_prefetch_result_does_not_enter_texture_cache() {
    let mut prefetch = PrefetchRuntime::default();
    prefetch.track_in_flight(
        2,
        DecodeRequestId(89),
        DecodePurpose::Prefetch,
        CancellationToken::new(),
    );
    let current = set_current_page(&mut prefetch, 0, 4, 6);

    let fresh = prefetch.complete_fresh_request(DecodeRequestId(89), 2);

    assert_eq!(current, 4);
    assert!(fresh.is_none());
    assert!(prefetch.in_flight.is_empty());
}

#[test]
fn reading_session_cache_preserves_pixel_size_with_texture() {
    let mut texture_cache: PageTextureCache<CachedPage<&str>> =
        PageTextureCache::with_default_capacity();

    texture_cache.insert(
        3,
        CachedPage {
            texture: "texture",
            pixel_size: PixelSize {
                width: 100,
                height: 200,
            },
        },
    );

    let cached = texture_cache.get(3).expect("cached");
    assert_eq!(cached.texture, "texture");
    assert_eq!(
        cached.pixel_size,
        PixelSize {
            width: 100,
            height: 200,
        }
    );
}

#[test]
fn prefetch_reconciliation_inserts_successful_result_into_texture_cache() {
    let mut prefetch = PrefetchRuntime::default();
    let mut texture_cache: PageTextureCache<CachedPage<&str>> =
        PageTextureCache::with_default_capacity();
    let mut viewer_state: ViewerState<&str> = ViewerState::new();
    let token = CancellationToken::new();
    prefetch.track_in_flight(2, DecodeRequestId(42), DecodePurpose::Prefetch, token);

    let inserted = reconcile_decode(
        &mut prefetch,
        &mut texture_cache,
        &mut viewer_state,
        0,
        DecodeRequestId(42),
        2,
        DecodePurpose::Prefetch,
        Ok((
            "decoded",
            PixelSize {
                width: 20,
                height: 30,
            },
        )),
    ) == Reconciled::Cached;

    assert!(inserted);
    assert!(prefetch.in_flight.is_empty());
    let cached = texture_cache.get(2).expect("cached page");
    assert_eq!(
        cached.pixel_size,
        PixelSize {
            width: 20,
            height: 30,
        }
    );
}

#[test]
fn failed_prefetch_reconciliation_is_recoverable() {
    let mut prefetch = PrefetchRuntime::default();
    let mut texture_cache: PageTextureCache<CachedPage<&str>> =
        PageTextureCache::with_default_capacity();
    let mut viewer_state: ViewerState<&str> = ViewerState::new();
    viewer_state.set_ready(
        PageId(1),
        "visible-page",
        PixelSize {
            width: 8,
            height: 8,
        },
    );
    prefetch.track_in_flight(
        3,
        DecodeRequestId(9),
        DecodePurpose::Prefetch,
        CancellationToken::new(),
    );

    let inserted = reconcile_decode(
        &mut prefetch,
        &mut texture_cache,
        &mut viewer_state,
        1,
        DecodeRequestId(9),
        3,
        DecodePurpose::Prefetch,
        Err(DecodeError::EmptyBytes.message()),
    ) == Reconciled::Cached;

    assert!(!inserted);
    assert!(prefetch.in_flight.is_empty());
    assert!(prefetch.failed_pages.contains_key(&3));
    assert!(matches!(viewer_state.page_status, PageStatus::Ready { .. }));
}
