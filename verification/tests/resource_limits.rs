use cbr_egui::library::thumbnail_target_size;
use cbr_egui::vfs::limits::{
    check_size, entry_limit, isqrt, raster_size, MAX_ENTRY_BYTES, MAX_METADATA_BYTES,
    MAX_RASTER_PIXELS,
};
use cbr_egui::vfs::ArchiveError;

#[test]
fn rasters_enforce_source_and_pixel_budgets() {
    assert!(raster_size(65_535, 65_535, None).is_err());
    let [width, height] = raster_size(8000, 8000, None).unwrap();
    assert!(u64::from(width) * u64::from(height) <= MAX_RASTER_PIXELS);
    assert_eq!([width, height], [2828, 2828]);
    assert_eq!(
        raster_size(1000, 2000, Some([200, 300])).unwrap(),
        [150, 300]
    );
    assert_eq!(
        thumbnail_target_size(60_000, 100),
        [600, 1]
    );
}

#[test]
fn small_pages_are_rastered_at_their_own_size() {
    assert_eq!(raster_size(300, 400, None).unwrap(), [300, 400]);
    assert_eq!(raster_size(300, 400, Some([600, 800])).unwrap(), [300, 400]);
}

#[test]
fn wide_target_fits_by_width() {
    assert_eq!(raster_size(1000, 500, Some([100, 100])).unwrap(), [100, 50]);
}

#[test]
fn refused_page_names_its_dimensions() {
    match raster_size(0, 10, None) {
        Err(ArchiveError::ResourceLimit(message)) => assert_eq!(message, "page dimensions 0x10"),
        other => panic!("unexpected {other:?}"),
    }
    match raster_size(20_000, 20_000, None) {
        Err(ArchiveError::ResourceLimit(message)) => {
            assert_eq!(message, "page dimensions 20000x20000")
        }
        other => panic!("unexpected {other:?}"),
    }
}

#[test]
fn comic_info_gets_the_metadata_budget_in_any_case_and_folder() {
    assert_eq!(entry_limit("ComicInfo.xml"), MAX_METADATA_BYTES);
    assert_eq!(entry_limit("nested/comicinfo.XML"), MAX_METADATA_BYTES);
    assert_eq!(entry_limit("nested\\COMICINFO.xml"), MAX_METADATA_BYTES);
    assert_eq!(entry_limit("pages/001.jpg"), MAX_ENTRY_BYTES);
    assert_eq!(entry_limit("ComicInfo.xml/page.jpg"), MAX_ENTRY_BYTES);
}

#[test]
fn declared_sizes_above_the_budget_are_refused() {
    assert!(check_size(MAX_METADATA_BYTES, MAX_METADATA_BYTES).is_ok());
    match check_size(MAX_METADATA_BYTES + 1, MAX_METADATA_BYTES) {
        Err(ArchiveError::ResourceLimit(message)) => {
            assert_eq!(message, "1048577 exceeds limit 1048576")
        }
        other => panic!("unexpected {other:?}"),
    }
}

#[test]
fn integer_square_root_rounds_down() {
    assert_eq!(isqrt(0), 0);
    assert_eq!(isqrt(15), 3);
    assert_eq!(isqrt(16), 4);
    assert_eq!(isqrt(8_000_000), 2828);
}

#[test]
fn thumbnails_keep_small_covers_and_shrink_tall_ones() {
    assert_eq!(thumbnail_target_size(200, 300), [200, 300]);
    assert_eq!(thumbnail_target_size(1000, 1200), [250, 300]);
    assert_eq!(thumbnail_target_size(0, 5000), [0, 5000]);
}
