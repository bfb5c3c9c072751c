use cbr_egui::library::watcher::full_reconciliation_needed;
use cbr_egui::library::{coalesce_watch_events, WatchEventBatch, WatchStatus};

#[test]
fn watcher_coalesces_duplicate_paths() {
    let batch = coalesce_watch_events(
        "/library".to_owned(),
        vec![
            "/library/book.cbz".to_owned(),
            "/library/book.cbz".to_owned(),
            "/library/other.cbz".to_owned(),
        ],
        0,
        250,
    );

    assert_eq!(batch.changed_paths.len(), 2);
    assert!(!batch.full_reconciliation);
}

#[test]
fn watcher_burst_schedules_full_reconciliation() {
    let paths = (0..40)
        .map(|index| format!("/library/book_{index}.cbz"))
        .collect::<Vec<_>>();

    let batch = coalesce_watch_events("/library".to_owned(), paths, 0, 250);

    assert!(batch.full_reconciliation);
}

#[test]
fn repeated_paths_do_not_count_toward_a_burst() {
    let paths = (0..40)
        .map(|index| format!("/library/book_{}.cbz", index % 4))
        .collect::<Vec<_>>();

    let batch = coalesce_watch_events("/library".to_owned(), paths, 1_000, 250);

    assert_eq!(batch.root_path, "/library");
    assert_eq!(batch.changed_paths.len(), 4);
    assert_eq!(batch.received_at, 1_000);
    assert_eq!(batch.settle_deadline, 1_250);
    assert!(!batch.full_reconciliation);
}

#[test]
fn pushed_paths_are_kept_in_path_order_once_each() {
    let mut batch = WatchEventBatch::new("/library".to_owned(), 10, 250);
    batch.push_path("/library/b.cbz".to_owned(), 20, 250);
    batch.push_path("/library/a.cbz".to_owned(), 30, 250);
    batch.push_path("/library/b.cbz".to_owned(), 40, 250);
    batch.push_path("/library//a.cbz".to_owned(), 50, 250);
    batch.push_path("/library/a/c.cbz".to_owned(), 60, 250);

    assert_eq!(
        batch.changed_paths,
        vec!["/library/a/c.cbz", "/library/a.cbz", "/library/b.cbz"]
    );
    assert_eq!(batch.received_at, 10);
    assert_eq!(batch.settle_deadline, 310);
    assert!(!batch.full_reconciliation);
}

#[test]
fn settling_waits_for_the_last_change() {
    let mut batch = WatchEventBatch::new("/library".to_owned(), 0, 250);
    assert!(!batch.is_settled(249));
    assert!(batch.is_settled(250));
    batch.push_path("/library/a.cbz".to_owned(), 200, 250);
    assert!(!batch.is_settled(300));
    assert!(batch.is_settled(450));
    let late = WatchEventBatch::new("/library".to_owned(), u64::MAX - 1, 250);
    assert_eq!(late.settle_deadline, u64::MAX);
}

#[test]
fn more_than_thirty_two_paths_rescan_the_library() {
    assert!(!full_reconciliation_needed(32));
    assert!(full_reconciliation_needed(33));
    assert_ne!(WatchStatus::Idle, WatchStatus::Watching);
}
