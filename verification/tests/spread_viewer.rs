use cbr_egui::viewer::{
    decide_spread, ordered_spread_pages, spread_result_matches_generation, PageId, PixelSize,
    ReadingDirection, SpreadDecision, SpreadGeneration, SpreadSideStatus,
};

fn size(width: u32, height: u32) -> PixelSize {
    PixelSize { width, height }
}

#[test]
fn spread_disabled_uses_single_page() {
    let decision = decide_spread(
        false,
        PageId(1),
        size(800, 1200),
        Some(PageId(2)),
        SpreadSideStatus::Ready { page_id: PageId(2) },
    );

    assert_eq!(decision, SpreadDecision::Single { page_id: PageId(1) });
}

#[test]
fn landscape_page_is_prestitched_spread() {
    let decision = decide_spread(
        true,
        PageId(3),
        size(1800, 900),
        Some(PageId(4)),
        SpreadSideStatus::Ready { page_id: PageId(4) },
    );

    assert_eq!(
        decision,
        SpreadDecision::SinglePreStitched { page_id: PageId(3) }
    );
}

#[test]
fn portrait_and_square_pages_pair_with_ready_next_page() {
    for page_size in [size(800, 1200), size(1000, 1000)] {
        let decision = decide_spread(
            true,
            PageId(1),
            page_size,
            Some(PageId(2)),
            SpreadSideStatus::Ready { page_id: PageId(2) },
        );

        assert_eq!(
            decision,
            SpreadDecision::Pair {
                left_page_id: PageId(1),
                right_page_id: PageId(2)
            }
        );
    }
}

#[test]
fn last_page_and_missing_next_page_are_recoverable() {
    assert_eq!(
        decide_spread(true, PageId(9), size(800, 1200), None, SpreadSideStatus::Absent),
        SpreadDecision::SingleNoNext { page_id: PageId(9) }
    );

    assert_eq!(
        decide_spread(
            true,
            PageId(1),
            size(800, 1200),
            Some(PageId(2)),
            SpreadSideStatus::Failed {
                page_id: PageId(2),
                message: "missing".to_owned()
            },
        ),
        SpreadDecision::PairFailed {
            left_page_id: PageId(1),
            right_page_id: PageId(2),
            message: "missing".to_owned()
        }
    );
}

#[test]
fn stale_next_page_result_is_ignored_by_generation() {
    assert!(spread_result_matches_generation(
        SpreadGeneration(3),
        SpreadGeneration(3),
        PageId(2),
        PageId(2),
    ));
    assert!(!spread_result_matches_generation(
        SpreadGeneration(3),
        SpreadGeneration(2),
        PageId(2),
        PageId(2),
    ));
    assert!(!spread_result_matches_generation(
        SpreadGeneration(3),
        SpreadGeneration(3),
        PageId(2),
        PageId(4),
    ));
}

#[test]
fn rtl_reading_direction_swaps_spread_page_order() {
    assert_eq!(
        ordered_spread_pages(PageId(1), PageId(2), ReadingDirection::LeftToRight),
        (PageId(1), PageId(2))
    );
    assert_eq!(
        ordered_spread_pages(PageId(1), PageId(2), ReadingDirection::RightToLeft),
        (PageId(2), PageId(1))
    );
}

#[test]
fn status_for_another_page_keeps_the_pair_pending() {
    assert_eq!(
        decide_spread(
            true,
            PageId(1),
            size(800, 1200),
            Some(PageId(2)),
            SpreadSideStatus::Ready { page_id: PageId(5) },
        ),
        SpreadDecision::PairPending {
            left_page_id: PageId(1),
            right_page_id: PageId(2)
        }
    );
    assert_eq!(
        decide_spread(
            true,
            PageId(1),
            size(800, 1200),
            Some(PageId(2)),
            SpreadSideStatus::Pending { page_id: PageId(2) },
        ),
        SpreadDecision::PairPending {
            left_page_id: PageId(1),
            right_page_id: PageId(2)
        }
    );
}

#[test]
fn zero_sized_page_is_not_treated_as_landscape() {
    assert_eq!(
        decide_spread(
            true,
            PageId(1),
            size(1200, 0),
            Some(PageId(2)),
            SpreadSideStatus::Ready { page_id: PageId(2) },
        ),
        SpreadDecision::Pair {
            left_page_id: PageId(1),
            right_page_id: PageId(2)
        }
    );
}

#[test]
fn decisions_are_anchored_on_the_current_page() {
    let pair = SpreadDecision::Pair {
        left_page_id: PageId(4),
        right_page_id: PageId(5),
    };
    assert_eq!(pair.primary_page_id(), PageId(4));
    assert_eq!(pair.composition_key(), (PageId(4), Some(PageId(5))));
    let single = SpreadDecision::SingleNoNext { page_id: PageId(9) };
    assert_eq!(single.composition_key(), (PageId(9), None));
}

#[test]
fn ordering_a_spread_twice_restores_reading_order() {
    let (a, b) = ordered_spread_pages(PageId(1), PageId(2), ReadingDirection::RightToLeft);
    assert_eq!(
        ordered_spread_pages(a, b, ReadingDirection::RightToLeft),
        (PageId(1), PageId(2))
    );
}
