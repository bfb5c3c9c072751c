use cbr_egui::viewer::{
    PageId, PageStatus, PixelSize, ReadingDirection, ReadingLayoutMode, SpreadDecision,
    ViewerState, ZoomIdentity,
};

fn portrait() -> PixelSize {
    PixelSize {
        width: 800,
        height: 1200,
    }
}

#[test]
fn viewer_state_updates_page_statuses() {
    let mut state = ViewerState::new();
    let page = PageId(7);

    assert!(state.page_status.is_empty());

    state.set_loading(page);
    assert_eq!(state.current_page_id, Some(page));
    assert!(state.page_status.is_loading());
    assert_eq!(state.page_status.page_id(), Some(page));

    state.set_ready(page, "texture", portrait());
    assert!(state.page_status.is_ready());
    assert_eq!(state.page_status, PageStatus::ready(page, "texture", portrait()));

    state.set_failed(page, "decode failed".to_owned());
    assert!(state.page_status.is_failed());
    assert_eq!(
        state.page_status,
        PageStatus::failed(page, "decode failed".to_owned())
    );
    assert_eq!(state.chrome.status_text.as_deref(), Some("decode failed"));
}

#[test]
fn continuous_layout_mode_disables_spread_state() {
    let mut state: ViewerState<&str> = ViewerState::new();
    state.set_ready(PageId(1), "left", portrait());
    state.set_spread_mode_enabled(true);
    assert!(state.spread_mode_enabled);

    state.set_layout_mode(ReadingLayoutMode::ContinuousVertical);

    assert_eq!(state.layout_mode, ReadingLayoutMode::ContinuousVertical);
    assert!(!state.spread_mode_enabled);
    assert!(state.next_page_status.is_empty());
    assert!(state.spread_decision.is_none());
}

#[test]
fn continuous_layout_refuses_to_turn_spreads_on() {
    let mut state: ViewerState<&str> = ViewerState::new();
    state.set_layout_mode(ReadingLayoutMode::ContinuousVertical);
    state.set_spread_mode_enabled(true);

    assert!(!state.spread_mode_enabled);
}

#[test]
fn page_change_keys_the_view_on_the_new_page() {
    let mut state: ViewerState<&str> = ViewerState::new();

    state.set_composed_page(PageId(1));
    state.set_composed_page(PageId(2));

    assert_eq!(state.current_page_id, Some(PageId(2)));
    assert_eq!(state.zoom.active_page_id, Some(PageId(2)));
    assert_eq!(state.zoom.reset_generation, 2);
}

#[test]
fn same_page_keeps_the_view() {
    let mut zoom = ZoomIdentity::default();
    assert!(zoom.reset_for_page(PageId(1)));
    let before = zoom;

    assert!(!zoom.reset_for_page(PageId(1)));
    assert_eq!(zoom, before);
}

#[test]
fn spread_composition_change_starts_the_view_over() {
    let mut state: ViewerState<&str> = ViewerState::new();
    state.set_ready(PageId(1), "left", portrait());
    state.set_spread_mode_enabled(true);
    state.set_next_ready(PageId(2), "right", portrait());
    state.recompute_spread_decision(Some(PageId(2)));
    assert_eq!(
        state.spread_decision,
        Some(SpreadDecision::Pair {
            left_page_id: PageId(1),
            right_page_id: PageId(2)
        })
    );
    let generation = state.zoom.reset_generation;

    state.recompute_spread_decision(Some(PageId(2)));
    assert_eq!(state.zoom.reset_generation, generation);

    state.set_next_ready(PageId(3), "right", portrait());
    state.recompute_spread_decision(Some(PageId(3)));
    assert_eq!(state.zoom.reset_generation, generation + 1);
    assert_eq!(state.zoom.active_composition, Some((PageId(1), Some(PageId(3)))));
}

#[test]
fn spread_waits_for_the_composed_page() {
    let mut state: ViewerState<&str> = ViewerState::new();
    state.set_loading(PageId(4));
    state.set_spread_mode_enabled(true);
    state.recompute_spread_decision(Some(PageId(5)));

    assert_eq!(state.spread_decision, None);
    assert_eq!(state.chrome.status_text.as_deref(), Some("Loading page"));
}

#[test]
fn reading_direction_change_rekeys_a_shown_spread() {
    let mut state: ViewerState<&str> = ViewerState::new();
    state.set_ready(PageId(1), "left", portrait());
    state.set_spread_mode_enabled(true);
    state.set_next_loading(PageId(2));
    state.recompute_spread_decision(Some(PageId(2)));
    assert_eq!(
        state.spread_decision,
        Some(SpreadDecision::PairPending {
            left_page_id: PageId(1),
            right_page_id: PageId(2)
        })
    );
    let zoom = state.zoom;

    state.set_reading_direction(ReadingDirection::RightToLeft);

    assert_eq!(state.reading_direction, ReadingDirection::RightToLeft);
    assert_eq!(state.zoom, zoom);
}
