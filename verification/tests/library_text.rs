use cbr_egui::app::covers::{
    removal_status_text, set_cover_status_for_path, tally_import_outcomes, CoverScanBudget,
    CoverStep, ImportRecordOutcome, SubmitOutcome,
};
use cbr_egui::app::labels::{
    ellipsize_text, filter_choices, filter_selection_label, group_label, import_status_text,
    sort_option_label,
};
use cbr_egui::app::LibrarySortOption;
use cbr_egui::library::service::{
    clean_string, folder_parts, grid_item_from_row, last_read_candidate, paths_missing_from_scan,
    replaced_metadata_id,
};
use cbr_egui::library::{
    document_metadata, empty_to_none, metadata_from_fields, normalize_group_key, Comic, ComicAvailability,
    ActiveLibraryFilter, ComicMetadataDisplay, LibraryComicRow, LibraryGridItem, LibraryGroup, LibraryGroupKind,
    MetadataError, Progress, ScannedComic, ThumbnailStatus,
};

fn comic(id: i64, path: &str) -> Comic {
    Comic {
        id,
        path: path.to_owned(),
        hash: format!("hash-{id}"),
        page_count: 5,
        metadata_id: None,
        availability: ComicAvailability::Available,
        thumbnail_key: None,
    }
}

#[test]
fn import_summary_lists_only_what_happened() {
    assert_eq!(import_status_text(1, 0, 0, None), "Added 1 comic");
    assert_eq!(
        import_status_text(3, 2, 1, None),
        "Added 3 comics, 2 already present, 1 failed"
    );
    assert_eq!(import_status_text(0, 0, 4, None), "Added 0 comics, 4 failed");
    assert_eq!(
        import_status_text(5, 0, 0, Some("disk full".to_owned())),
        "disk full"
    );
}

#[test]
fn shelf_labels_name_kind_label_and_count() {
    let group = LibraryGroup {
        kind: LibraryGroupKind::Series,
        key: "saga".to_owned(),
        label: "Saga".to_owned(),
        item_count: 12,
    };
    assert_eq!(group_label(&group), "Series: Saga (12)");
}

#[test]
fn long_titles_are_shortened_with_an_ellipsis() {
    assert_eq!(ellipsize_text("short", 10), "short");
    assert_eq!(ellipsize_text("abcdefghij", 8), "abcde...");
    assert_eq!(ellipsize_text("héllo wörld", 6), "hél...");
    assert_eq!(ellipsize_text("abcdef", 2), "...");
}

#[test]
fn metadata_text_is_trimmed_and_blank_is_absent() {
    assert_eq!(clean_string(Some("  Saga ".to_owned())).as_deref(), Some("Saga"));
    assert_eq!(clean_string(Some(" \t ".to_owned())), None);
    assert_eq!(empty_to_none(None), None);
    let metadata = metadata_from_fields(
        Some(" Saga ".to_owned()),
        Some(" Title ".to_owned()),
        Some("".to_owned()),
        Some("Writer".to_owned()),
        None,
    );
    assert_eq!(metadata.series.as_deref(), Some("Saga"));
    assert_eq!(metadata.title.as_deref(), Some("Title"));
    assert_eq!(metadata.number, None);
    assert_eq!(metadata.writer.as_deref(), Some("Writer"));
    assert_eq!(metadata.id, None);
}

#[test]
fn group_keys_collapse_whitespace_and_case() {
    assert_eq!(normalize_group_key("  Paper   Girls "), "paper girls");
    assert_eq!(normalize_group_key("SAGA"), "saga");
    assert_eq!(normalize_group_key("   "), "");
}

#[test]
fn folder_shelves_come_from_the_parent_directory() {
    assert_eq!(
        folder_parts("/library/Saga/001.cbz"),
        Some(("Saga".to_owned(), "/library/Saga".to_owned()))
    );
    assert_eq!(
        folder_parts("/book.cbz"),
        Some(("/".to_owned(), "/".to_owned()))
    );
    assert_eq!(folder_parts("book.cbz"), None);
}

#[test]
fn stored_rows_become_grid_items() {
    let mut stored = comic(7, "/store/abc/Saga 01.cbz");
    stored.thumbnail_key = Some("/cache/x.png".to_owned());
    let row = LibraryComicRow {
        comic: stored,
        metadata: ComicMetadataDisplay {
            series: Some(" Saga  Deluxe ".to_owned()),
            number: Some("1".to_owned()),
            writer: Some("BKV".to_owned()),
            ..ComicMetadataDisplay::default()
        },
    };

    let item: LibraryGridItem = grid_item_from_row(row, true, 4);

    assert_eq!(item.comic_id, 7);
    assert_eq!(item.title, "Saga 01");
    assert_eq!(item.subtitle.as_deref(), Some("Issue #1 - BKV"));
    assert_eq!(item.series.as_deref(), Some("Saga  Deluxe"));
    assert_eq!(item.series_key.as_deref(), Some("saga deluxe"));
    assert_eq!(item.folder_label.as_deref(), Some("abc"));
    assert_eq!(item.folder_key.as_deref(), Some("/store/abc"));
    assert_eq!(
        item.thumbnail_status,
        ThumbnailStatus::Ready {
            cache_path: "/cache/x.png".to_owned()
        }
    );
    assert!(item.is_read);
    assert_eq!(item.current_page, 4);
}

#[test]
fn resumes_most_recently_updated_progress_not_highest_page() {
    let progress = |comic_id, current_page, updated_at| Progress {
        comic_id,
        current_page,
        is_read: false,
        updated_at,
    };
    let chosen = last_read_candidate(vec![
        (comic(1, "/a.cbz"), progress(1, 50, 10)),
        (comic(2, "/b.cbz"), progress(2, 2, 30)),
        (comic(3, "/c.cbz"), progress(3, 9, 30)),
        (comic(4, "/d.cbz"), progress(4, 99, 20)),
    ]);

    assert_eq!(chosen.map(|(comic, _)| comic.id), Some(3));
    assert!(last_read_candidate(Vec::new()).is_none());
}

#[test]
fn comics_missing_from_a_scan_are_reported_in_order() {
    let stored = vec![comic(1, "/a.cbz"), comic(2, "/b.cbz"), comic(3, "/c.cbz")];
    let scanned = [ScannedComic {
        path: "/b.cbz".to_owned(),
        fingerprint: String::new(),
        page_count: 1,
        metadata: None,
    }];

    assert_eq!(paths_missing_from_scan(&stored, &scanned), ["/a.cbz", "/c.cbz"]);
}

#[test]
fn replaced_metadata_rows_are_released() {
    assert_eq!(replaced_metadata_id(Some(4), Some(5)), Some(4));
    assert_eq!(replaced_metadata_id(Some(4), Some(4)), None);
    assert_eq!(replaced_metadata_id(Some(4), None), Some(4));
    assert_eq!(replaced_metadata_id(None, Some(5)), None);
}

#[test]
fn cover_scheduling_respects_the_frame_budget() {
    let mut budget = CoverScanBudget::new();
    assert_eq!(budget.next_step(&ThumbnailStatus::Loading, false), CoverStep::Skip);
    assert_eq!(budget.next_step(&ThumbnailStatus::Missing, true), CoverStep::Skip);
    assert_eq!(budget.next_step(&ThumbnailStatus::Missing, false), CoverStep::Examine);
    assert_eq!(
        budget.record_submit(SubmitOutcome::Accepted),
        (Some(ThumbnailStatus::Loading), false)
    );
    assert_eq!(budget.next_step(&ThumbnailStatus::Stale, false), CoverStep::Examine);
    assert_eq!(
        budget.record_submit(SubmitOutcome::Failed("broken".to_owned())),
        (
            Some(ThumbnailStatus::Failed {
                message: "broken".to_owned()
            }),
            false
        )
    );
    assert_eq!(budget.next_step(&ThumbnailStatus::Missing, false), CoverStep::Examine);
    assert_eq!(budget.record_submit(SubmitOutcome::QueueFull), (None, true));
    assert_eq!(budget.next_step(&ThumbnailStatus::Missing, false), CoverStep::Examine);
    budget.record_submit(SubmitOutcome::Accepted);
    assert_eq!(budget.next_step(&ThumbnailStatus::Missing, false), CoverStep::Stop);
}

#[test]
fn cover_results_update_the_matching_comic() {
    let mut items = vec![
        LibraryGridItem {
            comic_id: 1,
            title: "A".to_owned(),
            subtitle: None,
            path: "/a.cbz".to_owned(),
            source_fingerprint: String::new(),
            page_count: 1,
            thumbnail_status: ThumbnailStatus::Loading,
            availability: ComicAvailability::Available,
            series: None,
            series_key: None,
            folder_label: None,
            folder_key: None,
            writer: None,
            number: None,
            is_read: false,
            current_page: 0,
        },
    ];
    let ready = ThumbnailStatus::Ready {
        cache_path: "/cache/a.png".to_owned(),
    };
    assert!(set_cover_status_for_path(&mut items, "/a.cbz", ready.clone()));
    assert_eq!(items[0].thumbnail_status, ready);
    assert!(!set_cover_status_for_path(&mut items, "/b.cbz", ThumbnailStatus::Missing));
}

#[test]
fn removals_and_imports_are_summarised() {
    assert_eq!(removal_status_text(1, None), "Removed 1 comic");
    assert_eq!(removal_status_text(0, None), "Removed 0 comics");
    assert_eq!(removal_status_text(2, Some("locked".to_owned())), "locked");
    let outcomes = vec![
        ImportRecordOutcome {
            already_present: false,
            error: None,
        },
        ImportRecordOutcome {
            already_present: true,
            error: None,
        },
        ImportRecordOutcome {
            already_present: false,
            error: Some("db".to_owned()),
        },
        ImportRecordOutcome {
            already_present: false,
            error: None,
        },
    ];
    assert_eq!(tally_import_outcomes(&outcomes), (2, 1, Some("db".to_owned())));
}

#[test]
fn metadata_errors_describe_themselves() {
    assert_eq!(
        MetadataError::Malformed("bad tag".to_owned()).message(),
        "malformed ComicInfo.xml: bad tag"
    );
}

fn shelf(kind: LibraryGroupKind, key: &str, label: &str, item_count: usize) -> LibraryGroup {
    LibraryGroup {
        kind,
        key: key.to_owned(),
        label: label.to_owned(),
        item_count,
    }
}

#[test]
fn shelf_picker_names_the_active_shelf_or_all_comics() {
    let groups = vec![
        shelf(LibraryGroupKind::Builtin, "reading", "Reading", 2),
        shelf(LibraryGroupKind::Series, "saga", "Saga", 3),
        shelf(LibraryGroupKind::Folder, "saga", "saga", 1),
    ];

    assert_eq!(filter_selection_label(&groups, &None), "All comics");
    let folder = Some(ActiveLibraryFilter {
        kind: LibraryGroupKind::Folder,
        key: "saga".to_owned(),
    });
    assert_eq!(filter_selection_label(&groups, &folder), "Folder: saga (1)");
    let gone = Some(ActiveLibraryFilter {
        kind: LibraryGroupKind::Series,
        key: "missing".to_owned(),
    });
    assert_eq!(filter_selection_label(&groups, &gone), "All comics");
}

#[test]
fn shelf_picker_lists_builtin_then_series_then_folders() {
    let groups = vec![
        shelf(LibraryGroupKind::Folder, "a", "a", 1),
        shelf(LibraryGroupKind::Series, "x", "X", 1),
        shelf(LibraryGroupKind::Builtin, "unread", "Unread", 4),
        shelf(LibraryGroupKind::Folder, "b", "b", 2),
        shelf(LibraryGroupKind::Builtin, "read", "Read", 0),
    ];

    assert_eq!(filter_choices(&groups), [2, 4, 1, 0, 3]);
    assert_eq!(filter_choices(&Vec::new()), Vec::<usize>::new());
}

#[test]
fn sort_picker_names_each_order() {
    assert_eq!(sort_option_label(LibrarySortOption::Title), "Title");
    assert_eq!(sort_option_label(LibrarySortOption::DateAdded), "Date Added");
    assert_eq!(sort_option_label(LibrarySortOption::Series), "Series");
    assert_eq!(sort_option_label(LibrarySortOption::Number), "Number");
}

#[test]
fn document_title_and_author_become_comic_metadata() {
    let metadata = document_metadata(
        Some("The Hunting of the Snark".to_owned()),
        Some("Lewis Carroll".to_owned()),
    )
    .expect("metadata");

    assert_eq!(metadata.title.as_deref(), Some("The Hunting of the Snark"));
    assert_eq!(metadata.writer.as_deref(), Some("Lewis Carroll"));
    assert_eq!(metadata.series, None);
    assert_eq!(metadata.number, None);
    assert_eq!(metadata.penciller, None);
}

#[test]
fn blank_document_metadata_counts_as_absent() {
    assert_eq!(document_metadata(None, None), None);
    assert_eq!(
        document_metadata(Some(String::new()), Some("  ".to_owned())),
        None
    );
    assert!(document_metadata(Some("  Titled  ".to_owned()), None).is_some());
    assert_eq!(
        document_metadata(Some("  Titled  ".to_owned()), None).and_then(|metadata| metadata.title),
        Some("Titled".to_owned())
    );
}

#[test]
fn group_keys_split_on_every_unicode_space() {
    assert_eq!(
        normalize_group_key("\u{3000}Saga\u{2003}One\u{85}\u{a0}Two\u{180e}"),
        "saga one two\u{180e}"
    );
    for c in ['\u{9}', '\u{b}', '\u{1680}', '\u{200a}', '\u{2028}', '\u{202f}', '\u{205f}'] {
        assert!(c.is_whitespace());
        assert_eq!(normalize_group_key(&format!("a{c}b")), "a b");
    }
    assert!(!'\u{180e}'.is_whitespace());
    assert!(!'\u{200b}'.is_whitespace());
}
