use cbr_egui::library::import::{
    content_hash, import_staging_suffix, import_target, is_reusable_copy, ContentHasher,
};
use cbr_egui::library::{stored_file_name, ImportSummary, ImportedComic};

fn imported(name: &str) -> ImportedComic {
    ImportedComic {
        source_path: format!("/inbox/{name}"),
        stored_path: format!("/store/abc/{name}"),
        content_hash: "abc".to_owned(),
        page_count: 3,
        metadata: None,
        already_present: false,
    }
}

#[test]
fn zip_and_rar_imports_are_stored_as_comic_archives() {
    assert_eq!(stored_file_name("book.zip"), "book.cbz");
    assert_eq!(stored_file_name("Book.ZIP"), "Book.cbz");
    assert_eq!(stored_file_name("story.rar"), "story.cbr");
    assert_eq!(stored_file_name("volume.1.Rar"), "volume.1.cbr");
}

#[test]
fn other_names_are_stored_unchanged() {
    assert_eq!(stored_file_name("book.cbz"), "book.cbz");
    assert_eq!(stored_file_name("scan.pdf"), "scan.pdf");
    assert_eq!(stored_file_name("noextension"), "noextension");
    assert_eq!(stored_file_name(".zip"), ".zip");
}

#[test]
fn staging_suffix_follows_the_source_extension() {
    assert_eq!(import_staging_suffix("/inbox/book.zip"), ".zip");
    assert_eq!(import_staging_suffix("/inbox/book.DJVU"), ".DJVU");
    assert_eq!(import_staging_suffix("/inbox/book"), ".cbz");
}

#[test]
fn batch_summary_keeps_imports_and_failures_apart() {
    let mut summary = ImportSummary::default();
    summary.record("/inbox/a.cbz".to_owned(), Ok(imported("a.cbz")));
    summary.record("/inbox/b.txt".to_owned(), Err("unsupported archive format: /inbox/b.txt".to_owned()));
    summary.record("/inbox/c.cbr".to_owned(), Ok(imported("c.cbr")));

    assert_eq!(summary.imported.len(), 2);
    assert_eq!(summary.imported[1].stored_path, "/store/abc/c.cbr");
    assert_eq!(
        summary.failures,
        vec![(
            "/inbox/b.txt".to_owned(),
            "unsupported archive format: /inbox/b.txt".to_owned()
        )]
    );
}

#[test]
fn content_hash_is_blake3_in_lowercase_hex() {
    assert_eq!(
        content_hash(b""),
        "af1349b9f5f9a1a6a0404dea36dcc9499bcb25c9adc112b7cc9a93cae41f3262"
    );
    let mut streamed = ContentHasher::new();
    streamed.update(b"comic ");
    streamed.update(b"bytes");
    assert_eq!(streamed.hex(), content_hash(b"comic bytes"));
    assert_ne!(content_hash(b"comic bytes"), content_hash(b"comic bytez"));
}

#[test]
fn import_target_keeps_an_existing_copy_or_names_a_new_one() {
    let (path, present) = import_target("/store", "Book.ZIP", "abc123", None);
    assert_eq!(path, "/store/abc123/Book.cbz");
    assert!(!present);
    let (path, present) = import_target(
        "/store",
        "Renamed.cbz",
        "abc123",
        Some("/store/abc123/Book.cbz".to_owned()),
    );
    assert_eq!(path, "/store/abc123/Book.cbz");
    assert!(present);
}

#[test]
fn only_a_matching_archive_file_is_reused() {
    assert!(is_reusable_copy("/store/h/a.cbz", true, Some("h"), "h"));
    assert!(!is_reusable_copy("/store/h/a.cbz", false, Some("h"), "h"));
    assert!(!is_reusable_copy("/store/h/a.txt", true, Some("h"), "h"));
    assert!(!is_reusable_copy("/store/h/a.cbz", true, Some("g"), "h"));
    assert!(!is_reusable_copy("/store/h/a.cbz", true, None, "h"));
}
