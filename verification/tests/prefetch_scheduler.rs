use std::collections::HashSet;

use cbr_egui::app::session::{
    apply_rotation, invalidate_decoded_pages, load_spread_next_page, reconcile_decode, reconcile_decode_given, window_pages,
    Reconciled,
};
use cbr_egui::app::PrefetchRuntime;
use cbr_egui::cache::{CachedPage, PageTextureCache};
use cbr_egui::decode::{CancellationToken, DecodePurpose, DecodeRequestId, Rotation};
use cbr_egui::viewer::{all_window_pages, overdraw_pages, PageId, PageStatus, PixelSize, ViewerState};
use cbr_egui::viewer::{
    is_stale_result, prefetch_candidates, result_matches_generation, spread_prefetch_candidates,
    PageGeneration, PrefetchState,
};

#[test]
fn middle_page_prefetches_next_following_previous() {
    let state = PrefetchState {
        page_count: 10,
        ..PrefetchState::default()
    };

    assert_eq!(prefetch_candidates(4, &state), [5, 6, 3]);
}

#[test]
fn first_and_last_pages_skip_out_of_range_candidates() {
    let state = PrefetchState {
        page_count: 3,
        ..PrefetchState::default()
    };

    assert_eq!(prefetch_candidates(0, &state), [1, 2]);
    assert_eq!(prefetch_candidates(2, &state), [1]);
}

#[test]
fn cached_pages_are_not_prefetched_again() {
    let state = PrefetchState {
        page_count: 10,
        cached: HashSet::from([5]),
        ..PrefetchState::default()
    };

    assert_eq!(prefetch_candidates(4, &state), [6, 3]);
}

#[test]
fn queued_and_in_flight_pages_are_not_prefetched_again() {
    let state = PrefetchState {
        page_count: 10,
        queued: HashSet::from([5]),
        in_flight: HashSet::from([6]),
        ..PrefetchState::default()
    };

    assert_eq!(prefetch_candidates(4, &state), [3]);
}

#[test]
fn all_candidate_states_are_excluded_from_dispatch() {
    let state = PrefetchState {
        page_count: 10,
        cached: HashSet::from([5]),
        queued: HashSet::from([6]),
        in_flight: HashSet::from([3]),
    };

    assert!(prefetch_candidates(4, &state).is_empty());
}

#[test]
fn stale_result_helper_detects_generation_or_request_mismatch() {
    assert!(result_matches_generation(
        PageGeneration(2),
        PageGeneration(2),
        Some(DecodeRequestId(10)),
        DecodeRequestId(10),
    ));
    assert!(is_stale_result(
        PageGeneration(2),
        PageGeneration(1),
        Some(DecodeRequestId(10)),
        DecodeRequestId(10),
    ));
    assert!(is_stale_result(
        PageGeneration(2),
        PageGeneration(2),
        Some(DecodeRequestId(10)),
        DecodeRequestId(11),
    ));
}

#[test]
fn result_without_an_awaited_request_only_needs_the_generation() {
    assert!(result_matches_generation(
        PageGeneration(7),
        PageGeneration(7),
        None,
        DecodeRequestId(99),
    ));
    assert!(is_stale_result(
        PageGeneration(7),
        PageGeneration(8),
        None,
        DecodeRequestId(99),
    ));
}

#[test]
fn spread_prefetch_uses_the_single_page_window() {
    let state = PrefetchState {
        page_count: 10,
        cached: HashSet::from([6]),
        ..PrefetchState::default()
    };

    assert_eq!(spread_prefetch_candidates(4, &state), [5, 3]);
    assert_eq!(spread_prefetch_candidates(0, &state), [1, 2]);
}

#[test]
fn empty_comic_prefetches_nothing() {
    let state = PrefetchState::default();

    assert!(prefetch_candidates(0, &state).is_empty());
}

#[test]
fn failed_pages_are_not_automatically_rescheduled() {
    let mut prefetch = PrefetchRuntime::default();
    prefetch.failed_pages.insert(0, "invalid image".into());
    let window = window_pages(&vec![0], 1);
    assert_eq!(prefetch.continuous_dispatch_pages(&window, &Vec::new()).len(), 0);

    let mut prefetch = PrefetchRuntime::default();
    prefetch.failed_pages.insert(1, "invalid image".into());
    assert_eq!(prefetch.dispatch_pages(0, 2, &Vec::new()).len(), 0);
}

#[test]
fn dispatch_asks_for_next_following_and_previous_pages() {
    let prefetch = PrefetchRuntime::default();

    assert_eq!(prefetch.dispatch_pages(2, 6, &Vec::new()), [3, 4, 1]);
    assert_eq!(prefetch.dispatch_pages(2, 6, &vec![3]), [4, 1]);
    assert_eq!(prefetch.dispatch_pages(5, 6, &Vec::new()), [4]);
}

#[test]
fn dispatch_skips_pages_already_in_flight_or_queued() {
    let mut prefetch = PrefetchRuntime::default();
    prefetch.track_in_flight(3, DecodeRequestId(9), DecodePurpose::Prefetch, CancellationToken::new());
    prefetch.queued_pages.insert(1);

    assert_eq!(prefetch.dispatch_pages(2, 6, &Vec::new()), [4]);
}

#[test]
fn continuous_window_is_sorted_inside_the_comic_and_each_page_once() {
    assert_eq!(window_pages(&vec![4, 2, 9, 2, 0, 4], 5), [0, 2, 4]);
    assert_eq!(window_pages(&Vec::new(), 5), Vec::<usize>::new());
}

#[test]
fn continuous_dispatch_keeps_window_order_and_skips_known_pages() {
    let mut prefetch = PrefetchRuntime::default();
    prefetch.track_in_flight(1, DecodeRequestId(3), DecodePurpose::Prefetch, CancellationToken::new());
    let window = window_pages(&vec![2, 0, 1, 3], 8);

    assert_eq!(prefetch.continuous_dispatch_pages(&window, &vec![3]), [0, 2]);
}

#[test]
fn window_pages_merge_visible_and_overdraw_runs() {
    let visible = vec![3, 4, 5];
    let overdraw = overdraw_pages(&visible, 8);

    assert_eq!(overdraw, [2, 6]);
    assert_eq!(all_window_pages(&visible, &overdraw), [2, 3, 4, 5, 6]);
    assert_eq!(overdraw_pages(&vec![0, 1], 2), Vec::<usize>::new());
    assert_eq!(overdraw_pages(&Vec::new(), 2), Vec::<usize>::new());
    assert_eq!(all_window_pages(&vec![5, 1, 5], &vec![1, 0]), [0, 1, 5]);
}

fn page_size() -> PixelSize {
    PixelSize {
        width: 640,
        height: 960,
    }
}

#[test]
fn fresh_direct_decode_is_cached_and_shown() {
    let mut prefetch = PrefetchRuntime::default();
    let mut cache: PageTextureCache<CachedPage<&str>> = PageTextureCache::with_default_capacity();
    let mut viewer: ViewerState<&str> = ViewerState::new();
    prefetch.track_in_flight(4, DecodeRequestId(7), DecodePurpose::Direct, CancellationToken::new());

    let r = reconcile_decode(
        &mut prefetch,
        &mut cache,
        &mut viewer,
        4,
        DecodeRequestId(7),
        4,
        DecodePurpose::Direct,
        Ok(("page four", page_size())),
    );

    assert_eq!(r, Reconciled::Cached);
    assert!(prefetch.in_flight.is_empty());
    assert_eq!(cache.get(4).map(|p| p.pixel_size), Some(page_size()));
    assert!(viewer.page_status.is_ready());
    assert_eq!(viewer.page_status.page_id(), Some(PageId(4)));
}

#[test]
fn prefetched_page_is_cached_without_touching_the_viewer() {
    let mut prefetch = PrefetchRuntime::default();
    let mut cache: PageTextureCache<CachedPage<&str>> = PageTextureCache::with_default_capacity();
    let mut viewer: ViewerState<&str> = ViewerState::new();
    prefetch.track_in_flight(5, DecodeRequestId(8), DecodePurpose::Prefetch, CancellationToken::new());

    let r = reconcile_decode(
        &mut prefetch,
        &mut cache,
        &mut viewer,
        4,
        DecodeRequestId(8),
        5,
        DecodePurpose::Prefetch,
        Ok(("page five", page_size())),
    );

    assert_eq!(r, Reconciled::Cached);
    assert!(cache.get(5).is_some());
    assert!(viewer.page_status.is_empty());
}

#[test]
fn failed_direct_decode_is_remembered_and_shown() {
    let mut prefetch = PrefetchRuntime::default();
    let mut cache: PageTextureCache<CachedPage<&str>> = PageTextureCache::with_default_capacity();
    let mut viewer: ViewerState<&str> = ViewerState::new();
    prefetch.track_in_flight(2, DecodeRequestId(3), DecodePurpose::Direct, CancellationToken::new());

    let r = reconcile_decode(
        &mut prefetch,
        &mut cache,
        &mut viewer,
        2,
        DecodeRequestId(3),
        2,
        DecodePurpose::Direct,
        Err(String::from("image decode error: truncated")),
    );

    assert_eq!(r, Reconciled::Failed);
    assert_eq!(
        prefetch.failed_pages.get(&2).map(String::as_str),
        Some("image decode error: truncated")
    );
    assert!(cache.get(2).is_none());
    assert_eq!(
        viewer.page_status,
        PageStatus::Failed {
            page_id: PageId(2),
            message: String::from("image decode error: truncated"),
        }
    );
}

#[test]
fn replaced_stale_or_cancelled_decodes_are_dropped() {
    let mut prefetch = PrefetchRuntime::default();
    let mut cache: PageTextureCache<CachedPage<&str>> = PageTextureCache::with_default_capacity();
    let mut viewer: ViewerState<&str> = ViewerState::new();
    prefetch.track_in_flight(1, DecodeRequestId(10), DecodePurpose::Direct, CancellationToken::new());

    // A result for a request id that was replaced.
    let r = reconcile_decode(
        &mut prefetch,
        &mut cache,
        &mut viewer,
        1,
        DecodeRequestId(9),
        1,
        DecodePurpose::Direct,
        Ok(("old", page_size())),
    );
    assert_eq!(r, Reconciled::Stale);
    assert_eq!(prefetch.in_flight.len(), 1);

    // A cancelled request.
    let token = CancellationToken::new();
    prefetch.track_in_flight(2, DecodeRequestId(11), DecodePurpose::Prefetch, token.clone());
    token.cancel();
    let r = reconcile_decode(
        &mut prefetch,
        &mut cache,
        &mut viewer,
        1,
        DecodeRequestId(11),
        2,
        DecodePurpose::Prefetch,
        Ok(("cancelled", page_size())),
    );
    assert_eq!(r, Reconciled::Stale);
    assert!(cache.get(2).is_none());
    assert!(viewer.page_status.is_empty());
    assert!(prefetch.failed_pages.is_empty());
}

#[test]
fn new_render_settings_forget_every_decode() {
    let mut prefetch = PrefetchRuntime::default();
    let mut cache: PageTextureCache<CachedPage<&str>> = PageTextureCache::with_default_capacity();
    let mut viewer: ViewerState<&str> = ViewerState::new();
    let token = CancellationToken::new();
    prefetch.track_in_flight(3, DecodeRequestId(4), DecodePurpose::Prefetch, token.clone());
    prefetch.queued_pages.insert(5);
    prefetch.record_failed_page(6, String::from("bad page"));
    cache.insert(
        1,
        CachedPage {
            texture: "page one",
            pixel_size: page_size(),
        },
    );
    viewer.set_next_loading(PageId(2));
    let before = prefetch.generation;

    invalidate_decoded_pages(&mut prefetch, &mut cache, &mut viewer);

    assert!(token.is_cancelled());
    assert!(prefetch.in_flight.is_empty());
    assert!(prefetch.queued_pages.is_empty());
    assert!(prefetch.failed_pages.is_empty());
    assert_eq!(prefetch.generation, PageGeneration(before.0 + 1));
    assert!(cache.get(1).is_none());
    assert!(viewer.next_page_status.is_empty());
}

#[test]
fn spread_next_page_comes_from_cache_failure_or_loading() {
    let mut prefetch = PrefetchRuntime::default();
    let mut cache: PageTextureCache<CachedPage<&str>> = PageTextureCache::with_default_capacity();
    let mut viewer: ViewerState<&str> = ViewerState::new();

    // Spreads off: nothing changes.
    assert!(!load_spread_next_page(&mut viewer, &mut cache, &prefetch, false, 0, 5));
    assert!(viewer.next_page_status.is_empty());

    // Not decoded yet: loading.
    assert!(load_spread_next_page(&mut viewer, &mut cache, &prefetch, true, 0, 5));
    assert!(viewer.next_page_status.is_loading());
    assert_eq!(viewer.next_page_status.page_id(), Some(PageId(1)));

    // Decoded by the prefetcher: adopted from the cache.
    cache.insert(
        1,
        CachedPage {
            texture: "page two",
            pixel_size: page_size(),
        },
    );
    assert!(!load_spread_next_page(&mut viewer, &mut cache, &prefetch, true, 0, 5));
    assert_eq!(
        viewer.next_page_status,
        PageStatus::Ready {
            page_id: PageId(1),
            texture: "page two",
            pixel_size: page_size(),
        }
    );

    // A remembered failure is shown.
    prefetch.record_failed_page(3, String::from("broken"));
    assert!(!load_spread_next_page(&mut viewer, &mut cache, &prefetch, true, 2, 5));
    assert_eq!(
        viewer.next_page_status,
        PageStatus::Failed {
            page_id: PageId(3),
            message: String::from("broken"),
        }
    );

    // On the last page there is no next page.
    assert!(!load_spread_next_page(&mut viewer, &mut cache, &prefetch, true, 4, 5));
    assert!(viewer.next_page_status.is_empty());
}

#[test]
fn fresh_requests_are_handed_back_unless_cancelled() {
    let mut prefetch = PrefetchRuntime::default();
    prefetch.track_in_flight(2, DecodeRequestId(5), DecodePurpose::Prefetch, CancellationToken::new());
    prefetch.track_in_flight(3, DecodeRequestId(6), DecodePurpose::Prefetch, CancellationToken::new());

    let taken = prefetch.complete_fresh_request_given(DecodeRequestId(5), 2, false);
    assert_eq!(taken.map(|e| e.request_id), Some(DecodeRequestId(5)));
    assert!(!prefetch.in_flight.contains_key(&2));

    assert!(prefetch.complete_fresh_request_given(DecodeRequestId(6), 3, true).is_none());
    assert!(!prefetch.in_flight.contains_key(&3));
    assert!(!prefetch.tracked_cancelled(3));
}

#[test]
fn a_cancelled_result_is_dropped_given_the_flag() {
    let mut prefetch = PrefetchRuntime::default();
    let mut cache: PageTextureCache<CachedPage<&str>> = PageTextureCache::with_default_capacity();
    let mut viewer: ViewerState<&str> = ViewerState::new();
    prefetch.track_in_flight(1, DecodeRequestId(2), DecodePurpose::Direct, CancellationToken::new());

    let r = reconcile_decode_given(
        &mut prefetch,
        &mut cache,
        &mut viewer,
        1,
        DecodeRequestId(2),
        1,
        DecodePurpose::Direct,
        Ok(("page", page_size())),
        true,
    );

    assert_eq!(r, Reconciled::Stale);
    assert!(prefetch.in_flight.is_empty());
    assert!(cache.get(1).is_none());
    assert!(viewer.page_status.is_empty());
}

#[test]
fn a_new_rotation_forgets_decodes_and_starts_zoom_over() {
    let mut rotation = Rotation::Upright;
    let mut prefetch = PrefetchRuntime::default();
    let mut cache: PageTextureCache<CachedPage<&str>> = PageTextureCache::with_default_capacity();
    let mut viewer: ViewerState<&str> = ViewerState::new();
    viewer.set_ready(PageId(3), "page", page_size());
    cache.insert(
        3,
        CachedPage {
            texture: "page",
            pixel_size: page_size(),
        },
    );
    let generation = viewer.zoom.reset_generation;

    assert!(!apply_rotation(&mut rotation, Rotation::Upright, &mut prefetch, &mut cache, &mut viewer));
    assert!(cache.get(3).is_some());
    assert_eq!(viewer.zoom.reset_generation, generation);

    assert!(apply_rotation(&mut rotation, Rotation::Cw90, &mut prefetch, &mut cache, &mut viewer));
    assert_eq!(rotation, Rotation::Cw90);
    assert!(cache.get(3).is_none());
    assert_eq!(viewer.zoom.reset_generation, generation + 1);
    assert_eq!(viewer.zoom.active_page_id, None);
}
