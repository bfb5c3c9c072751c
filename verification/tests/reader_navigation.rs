use cbr_egui::app::reader::{parse_goto_target, plan_navigation, resolve_navigation_target};
use cbr_egui::app::session::{
    is_current_page_thumbnail, page_thumbnail_request_id, progress_snapshot, resume_target,
    set_current_page,
};
use cbr_egui::app::{PrefetchRuntime, ProgressSnapshot};
use cbr_egui::library::Progress;
use cbr_egui::viewer::PageNavigationCommand;

#[test]
fn navigation_steps_and_jumps_stay_inside_the_comic() {
    assert_eq!(resolve_navigation_target(PageNavigationCommand::PreviousPage, 0, 10), 0);
    assert_eq!(resolve_navigation_target(PageNavigationCommand::ScrollUp, 4, 10), 3);
    assert_eq!(resolve_navigation_target(PageNavigationCommand::NextPage, 9, 10), 9);
    assert_eq!(resolve_navigation_target(PageNavigationCommand::ScrollDown, 3, 10), 4);
    assert_eq!(resolve_navigation_target(PageNavigationCommand::FirstPage, 7, 10), 0);
    assert_eq!(resolve_navigation_target(PageNavigationCommand::LastPage, 2, 10), 9);
    assert_eq!(resolve_navigation_target(PageNavigationCommand::GoToPage(42), 2, 10), 9);
    assert_eq!(resolve_navigation_target(PageNavigationCommand::GoToPage(5), 2, 10), 5);
    assert_eq!(resolve_navigation_target(PageNavigationCommand::NextPage, 0, 0), 0);
    assert_eq!(resolve_navigation_target(PageNavigationCommand::NextPage, usize::MAX, usize::MAX), usize::MAX - 1);
}

#[test]
fn a_shown_pair_is_stepped_over_as_a_whole() {
    let plan = plan_navigation(PageNavigationCommand::NextPage, 2, 10, true);
    assert_eq!((plan.target, plan.is_jump), (4, false));
    assert_eq!(plan_navigation(PageNavigationCommand::PreviousPage, 1, 10, true).target, 0);
    assert_eq!(plan_navigation(PageNavigationCommand::NextPage, 8, 10, true).target, 9);
    assert_eq!(plan_navigation(PageNavigationCommand::NextPage, 2, 10, false).target, 3);
    let jump = plan_navigation(PageNavigationCommand::GoToPage(6), 2, 10, true);
    assert_eq!((jump.target, jump.is_jump), (6, true));
    assert!(plan_navigation(PageNavigationCommand::LastPage, 0, 10, false).is_jump);
}

#[test]
fn typed_page_numbers_are_one_based_and_clamped() {
    assert_eq!(parse_goto_target(" 3 ", 10), Some(2));
    assert_eq!(parse_goto_target("42", 10), Some(9));
    assert_eq!(parse_goto_target("+1", 10), Some(0));
    assert_eq!(parse_goto_target("0", 10), None);
    assert_eq!(parse_goto_target("", 10), None);
    assert_eq!(parse_goto_target("three", 10), None);
    assert_eq!(parse_goto_target("-2", 10), None);
    assert_eq!(parse_goto_target("5", 0), None);
}

#[test]
fn moving_pages_advances_the_prefetch_generation_only_on_change() {
    let mut prefetch = PrefetchRuntime::default();
    let page = set_current_page(&mut prefetch, 0, 3, 10);
    assert_eq!(page, 3);
    assert_eq!(prefetch.generation.0, 1);
    let page = set_current_page(&mut prefetch, page, 3, 10);
    assert_eq!(page, 3);
    assert_eq!(prefetch.generation.0, 1);
    let page = set_current_page(&mut prefetch, page, 99, 10);
    assert_eq!(page, 9);
    assert_eq!(prefetch.generation.0, 2);
}

#[test]
fn progress_is_finished_only_on_the_last_page() {
    assert_eq!(
        progress_snapshot(7, 9, 10),
        ProgressSnapshot {
            comic_id: 7,
            current_page: 9,
            is_read: true
        }
    );
    assert!(!progress_snapshot(7, 8, 10).is_read);
    assert!(!progress_snapshot(7, 0, 0).is_read);
}

#[test]
fn reopened_comics_resume_where_they_were_left() {
    let saved = |current_page, is_read| Progress {
        comic_id: 1,
        current_page,
        is_read,
        updated_at: 0,
    };
    assert_eq!(resume_target(&saved(5, false), 12), 5);
    assert_eq!(resume_target(&saved(50, false), 12), 11);
    assert_eq!(resume_target(&saved(11, true), 12), 0);
    assert_eq!(resume_target(&saved(3, false), 0), 0);
}

#[test]
fn sidebar_thumbnail_ids_carry_their_generation() {
    let id = page_thumbnail_request_id(3, 17);
    assert_eq!(id.0, (3u64 << 32) | 17);
    assert!(is_current_page_thumbnail(3, id));
    assert!(!is_current_page_thumbnail(4, id));
}
