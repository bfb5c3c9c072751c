use cbr_egui::vfs::{
    build_pages, is_hidden_metadata_path, is_page_image_path, reader_kind_for_path, sort_natural,
    unsupported_rar_error, ArchiveError, ArchiveKind,
};

fn strings(items: &[&str]) -> Vec<String> {
    items.iter().map(|item| (*item).to_owned()).collect()
}

#[test]
fn natural_page_order_uses_numeric_values() {
    let pages = build_pages(strings(&["page_10.jpg", "page_1.jpg", "page_2.jpg"]));
    let paths = pages.into_iter().map(|page| page.path).collect::<Vec<_>>();

    assert_eq!(paths, ["page_1.jpg", "page_2.jpg", "page_10.jpg"]);
}

#[test]
fn filters_hidden_metadata_and_non_images() {
    assert!(is_page_image_path("chapter/page_1.jpg"));
    assert!(!is_page_image_path("__MACOSX/page_1.jpg"));
    assert!(!is_page_image_path("chapter/notes.txt"));
}

#[test]
fn page_list_numbers_pages_in_reading_order() {
    let pages = build_pages(strings(&[
        "ComicInfo.xml",
        "b/page_3.png",
        "__MACOSX/page_1.jpg",
        "b/page_1.PNG",
        ".hidden/page_0.jpg",
    ]));

    let summary = pages
        .iter()
        .map(|page| (page.path.as_str(), page.sort_index))
        .collect::<Vec<_>>();
    assert_eq!(summary, [("b/page_1.PNG", 0), ("b/page_3.png", 1)]);
}

#[test]
fn hidden_metadata_paths_are_recognised() {
    assert!(is_hidden_metadata_path("__MACOSX/a.jpg"));
    assert!(is_hidden_metadata_path("dir/.DS_Store"));
    assert!(!is_hidden_metadata_path("dir/page.jpg"));
}

#[test]
fn natural_sort_orders_numbers_by_value() {
    let mut names = strings(&["x10", "x9", "x1"]);
    sort_natural(&mut names);

    assert_eq!(names, ["x1", "x9", "x10"]);
}

#[test]
fn reader_family_follows_the_extension() {
    assert_eq!(reader_kind_for_path("a/book.CBZ").ok(), Some(ArchiveKind::Zip));
    assert_eq!(reader_kind_for_path("book.rar").ok(), Some(ArchiveKind::Rar));
    assert_eq!(reader_kind_for_path("book.pdf").ok(), Some(ArchiveKind::Pdf));
    assert_eq!(reader_kind_for_path("book.djv").ok(), Some(ArchiveKind::Djvu));
    assert!(matches!(
        reader_kind_for_path("book.txt"),
        Err(ArchiveError::UnsupportedFormat(path)) if path == "book.txt"
    ));
}

#[test]
fn rar_backend_error_names_the_archive() {
    let error = unsupported_rar_error("/tmp/book.cbr");

    assert!(matches!(
        &error,
        ArchiveError::BackendUnavailable(message)
            if message == "RAR support requires a native backend; cannot read /tmp/book.cbr"
    ));
    assert_eq!(
        error.message(),
        "archive backend is unavailable: RAR support requires a native backend; cannot read /tmp/book.cbr"
    );
}
