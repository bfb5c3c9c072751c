use cbr_egui::library::thumbnails::thumbnail_stale_given;
use cbr_egui::library::{
    cache_key_for_source, cache_path_for_source, cover_request_for_pages, is_thumbnail_stale,
    thumbnail_target_size, ArchivePage, ThumbnailCacheEntry, MAX_THUMBNAIL_HEIGHT,
};

#[test]
fn thumbnail_cache_key_is_stable_for_source_and_fingerprint() {
    assert_eq!(
        cache_key_for_source("/books/a.cbz", "123"),
        cache_key_for_source("/books/a.cbz", "123")
    );
    assert_ne!(
        cache_key_for_source("/books/a.cbz", "123"),
        cache_key_for_source("/books/a.cbz", "456")
    );
}

#[test]
fn thumbnail_source_invalidation_detects_stale_entries() {
    let dir = tempfile::tempdir().expect("dir");
    let root = dir.path().to_string_lossy().into_owned();
    let cache_path = cache_path_for_source(&root, "/books/a.cbz", "123");
    let entry = ThumbnailCacheEntry {
        source_path: "/books/a.cbz".to_owned(),
        source_fingerprint: "123".to_owned(),
        cache_path: cache_path.clone(),
    };

    assert!(is_thumbnail_stale(&entry, "123"));
    assert!(!thumbnail_stale_given(&entry, "123", true));
    assert!(is_thumbnail_stale(&entry, "456"));
    assert!(thumbnail_stale_given(&entry, "456", true));
}

#[test]
fn thumbnail_target_size_caps_height_to_300px() {
    assert_eq!(MAX_THUMBNAIL_HEIGHT, 300);
    assert_eq!(thumbnail_target_size(1200, 1800), [200, 300]);
    assert_eq!(thumbnail_target_size(200, 250), [200, 250]);
}

#[test]
fn cover_request_uses_first_usable_page() {
    let pages = vec![
        ArchivePage {
            path: "page_2.jpg".to_owned(),
            sort_index: 1,
        },
        ArchivePage {
            path: "page_1.jpg".to_owned(),
            sort_index: 0,
        },
    ];

    assert_eq!(
        cover_request_for_pages(&pages).expect("cover").path,
        "page_1.jpg"
    );
    assert!(cover_request_for_pages(&[]).is_none());
}

#[test]
fn cache_key_is_sixteen_hex_digits_and_png() {
    let key = cache_key_for_source("/books/a.cbz", "123");

    assert_eq!(key.len(), 20);
    assert!(key.ends_with(".png"));
    assert!(key[..16]
        .chars()
        .all(|c| c.is_ascii_digit() || ('a'..='f').contains(&c)));
}

#[test]
fn cache_path_lives_under_the_cache_root() {
    let path = cache_path_for_source("/cache/root", "/books/a.cbz", "123");

    assert!(path.starts_with("/cache/root/"));
    assert!(path.ends_with(&cache_key_for_source("/books/a.cbz", "123")));
}

#[test]
fn wide_pages_are_capped_at_six_hundred_pixels() {
    assert_eq!(thumbnail_target_size(60_000, 100), [600, 1]);
    assert_eq!(thumbnail_target_size(1000, 2000), [150, 300]);
    assert_eq!(thumbnail_target_size(0, 5000), [0, 5000]);
    assert_eq!(thumbnail_target_size(600, 300), [600, 300]);
}

#[test]
fn cover_prefers_the_first_of_equal_sort_indices() {
    let pages = vec![
        ArchivePage {
            path: "b.jpg".to_owned(),
            sort_index: 3,
        },
        ArchivePage {
            path: "a.jpg".to_owned(),
            sort_index: 3,
        },
    ];

    assert_eq!(cover_request_for_pages(&pages).expect("cover").path, "b.jpg");
}

fn png_of(width: u32, height: u32) -> Vec<u8> {
    let image = image::ImageBuffer::from_pixel(width, height, image::Rgba([10_u8, 20, 30, 255]));
    let mut cursor = std::io::Cursor::new(Vec::new());
    image
        .write_to(&mut cursor, image::ImageFormat::Png)
        .expect("png encode");
    cursor.into_inner()
}

#[test]
fn thumbnails_are_decoded_and_shrunk_to_the_thumbnail_size() {
    let tall = cbr_egui::library::thumbnails::thumbnail_picture(&png_of(1200, 1800)).expect("tall cover");
    assert_eq!((tall.width, tall.height), (200, 300));
    assert_eq!(tall.rgba.len(), 4 * 200 * 300);

    let wide = cbr_egui::library::thumbnails::thumbnail_picture(&png_of(1800, 300)).expect("wide cover");
    assert_eq!((wide.width, wide.height), (600, 100));

    let small = cbr_egui::library::thumbnails::thumbnail_picture(&png_of(2, 1)).expect("small cover");
    assert_eq!((small.width, small.height), (2, 1));
    assert_eq!(small.rgba, vec![10, 20, 30, 255, 10, 20, 30, 255]);

    assert!(cbr_egui::library::thumbnails::thumbnail_picture(b"not an image").is_err());
    assert!(cbr_egui::library::thumbnails::thumbnail_picture(&[]).is_err());
}
