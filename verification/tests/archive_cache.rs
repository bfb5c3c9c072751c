use cbr_egui::cache::{ReadingArchiveCache, DEFAULT_RAW_PAGE_CACHE_CAPACITY};
use cbr_egui::library::{ArchivePage, ComicMetadata};
use cbr_egui::vfs::{build_pages, ArchiveError, ArchiveReader};

struct CountingReader {
    reads: usize,
}

impl ArchiveReader for CountingReader {
    fn list_pages(&mut self) -> Result<Vec<ArchivePage>, ArchiveError> {
        Ok(build_pages(vec!["b.png".to_owned(), "a.png".to_owned()]))
    }

    fn read_page(&mut self, path: &str) -> Result<Vec<u8>, ArchiveError> {
        self.reads += 1;
        if path == "missing.png" {
            return Err(ArchiveError::NotFound(path.to_owned()));
        }
        Ok(path.as_bytes().to_vec())
    }

    fn read_entry(&mut self, _path: &str) -> Result<Option<Vec<u8>>, ArchiveError> {
        Ok(None)
    }
}

fn pages(paths: &[&str]) -> Vec<ArchivePage> {
    paths
        .iter()
        .enumerate()
        .map(|(sort_index, path)| ArchivePage {
            path: (*path).to_owned(),
            sort_index,
        })
        .collect()
}

#[test]
fn repeated_page_reads_are_served_from_the_cache() {
    let mut cache = ReadingArchiveCache::new();
    cache.reset("/library/book.cbz", CountingReader { reads: 0 }, pages(&["a.png", "b.png"]));

    assert_eq!(cache.read_page(1).unwrap(), b"b.png".to_vec());
    assert_eq!(cache.read_page(1).unwrap(), b"b.png".to_vec());
    assert_eq!(cache.read_page(0).unwrap(), b"a.png".to_vec());
    assert!(cache.is_for("/library/book.cbz"));
    assert!(!cache.is_for("/library/other.cbz"));
    assert_eq!(cache.page_count(), 2);
    assert_eq!(cache.page_entry_path(1).as_deref(), Some("b.png"));
    assert_eq!(cache.page_entry_path(2), None);
}

#[test]
fn pages_past_the_end_and_missing_readers_are_refused() {
    let mut empty: ReadingArchiveCache<CountingReader> = ReadingArchiveCache::new();
    assert_eq!(empty.read_page(0), Err("Page 1 is not available".to_owned()));

    let mut cache = ReadingArchiveCache::new();
    cache.reset("/library/book.cbz", CountingReader { reads: 0 }, pages(&["missing.png"]));
    assert_eq!(cache.read_page(4), Err("Page 5 is not available".to_owned()));
    assert_eq!(
        cache.read_page(0),
        Err("page not found: missing.png".to_owned())
    );
}

#[test]
fn readers_report_no_document_metadata_unless_they_override_it() {
    let mut reader = CountingReader { reads: 0 };
    let none: Option<ComicMetadata> = None;
    assert_eq!(reader.document_metadata().expect("default metadata"), none);
    assert_eq!(
        reader
            .list_pages()
            .unwrap()
            .into_iter()
            .map(|page| page.path)
            .collect::<Vec<_>>(),
        ["a.png", "b.png"]
    );
    assert_eq!(DEFAULT_RAW_PAGE_CACHE_CAPACITY, 9);
}
