use cbr_egui::cache::{
    PageTextureCache, PageTextureCacheError, DEFAULT_PAGE_CACHE_CAPACITY, MAX_PAGE_CACHE_CAPACITY,
};

#[test]
fn validates_default_and_max_capacity() {
    let cache = PageTextureCache::<String>::with_default_capacity();

    assert_eq!(cache.capacity(), DEFAULT_PAGE_CACHE_CAPACITY);
    assert!(PageTextureCache::<String>::new(MAX_PAGE_CACHE_CAPACITY).is_ok());
    assert!(matches!(
        PageTextureCache::<String>::new(MAX_PAGE_CACHE_CAPACITY + 1),
        Err(PageTextureCacheError::CapacityTooLarge { .. })
    ));
    assert!(matches!(
        PageTextureCache::<String>::new(0),
        Err(PageTextureCacheError::ZeroCapacity)
    ));
}

#[test]
fn inserts_and_reuses_cached_pages() {
    let mut cache = PageTextureCache::new(2).expect("cache");

    assert_eq!(cache.insert(1, "one"), None);
    assert!(cache.contains(1));
    assert_eq!(cache.get(1), Some(&"one"));
}

#[test]
fn exposes_cached_page_indices_for_prefetch_filtering() {
    let mut cache = PageTextureCache::new(3).expect("cache");

    cache.insert(1, "one");
    cache.insert(3, "three");

    let mut keys = cache.keys();
    keys.sort_unstable();
    assert_eq!(keys, [1, 3]);
}

#[test]
fn evicts_least_recently_used_page() {
    let mut cache = PageTextureCache::new(2).expect("cache");

    cache.insert(1, "one");
    cache.insert(2, "two");
    cache.insert(3, "three");

    assert!(!cache.contains(1));
    assert!(cache.contains(2));
    assert!(cache.contains(3));
}

#[test]
fn cache_access_refreshes_recency() {
    let mut cache = PageTextureCache::new(2).expect("cache");

    cache.insert(1, "one");
    cache.insert(2, "two");
    assert_eq!(cache.get(1), Some(&"one"));
    cache.insert(3, "three");

    assert!(cache.contains(1));
    assert!(!cache.contains(2));
    assert!(cache.contains(3));
}

#[test]
fn cache_never_exceeds_configured_capacity() {
    let mut cache = PageTextureCache::new(3).expect("cache");

    for page in 0..10 {
        cache.insert(page, page);
        assert!(cache.len() <= cache.capacity());
    }
}

#[test]
fn ensure_capacity_grows_but_never_shrinks_and_is_clamped() {
    let mut cache = PageTextureCache::<u8>::with_default_capacity();
    assert_eq!(cache.capacity(), DEFAULT_PAGE_CACHE_CAPACITY);

    cache.ensure_capacity(8);
    assert_eq!(cache.capacity(), 8);

    cache.ensure_capacity(3);
    assert_eq!(cache.capacity(), 8);

    cache.ensure_capacity(MAX_PAGE_CACHE_CAPACITY + 5);
    assert_eq!(cache.capacity(), MAX_PAGE_CACHE_CAPACITY);
}

#[test]
fn replacing_a_page_returns_its_previous_texture() {
    let mut cache = PageTextureCache::new(2).expect("cache");

    assert_eq!(cache.insert(1, "old"), None);
    assert_eq!(cache.insert(2, "two"), None);
    assert_eq!(cache.insert(1, "new"), Some("old"));
    assert_eq!(cache.insert(3, "three"), Some("two"));
    assert_eq!(cache.get(1), Some(&"new"));
    assert_eq!(cache.keys(), [1, 3]);
}

#[test]
fn version_counts_inserts_and_clears() {
    let mut cache = PageTextureCache::new(2).expect("cache");
    assert_eq!(cache.version(), 0);
    cache.insert(1, 1u8);
    cache.insert(2, 2u8);
    assert_eq!(cache.version(), 2);
    cache.clear();
    assert_eq!(cache.version(), 3);
    assert!(cache.is_empty());
}

#[test]
fn least_recent_page_pops_first() {
    let mut cache = PageTextureCache::new(3).expect("cache");
    cache.insert(1, "a");
    cache.insert(2, "b");
    cache.insert(3, "c");
    cache.get(1);

    assert_eq!(cache.pop_lru(), Some((2, "b")));
    assert_eq!(cache.pop_lru(), Some((3, "c")));
    assert_eq!(cache.pop_lru(), Some((1, "a")));
    assert_eq!(cache.pop_lru(), None);
}

#[test]
fn cache_errors_describe_themselves() {
    assert_eq!(
        PageTextureCacheError::CapacityTooLarge {
            capacity: 20,
            max: 16
        }
        .message(),
        "cache capacity 20 exceeds max 16"
    );
}
