use std::collections::HashSet;

use cbr_egui::app::chrome::{
    nav_buttons, page_counter_text, read_toggle_label, row_details_text, tile_hover_text,
    NavArrow, ReaderWindows,
};
use cbr_egui::app::session::page_thumbnail_candidates;
use cbr_egui::library::{ComicAvailability, LibraryGridItem, ThumbnailStatus};
use cbr_egui::viewer::{PageNavigationCommand, ReadingDirection};

fn item(title: &str, subtitle: Option<&str>) -> LibraryGridItem {
    LibraryGridItem {
        comic_id: 1,
        title: title.to_owned(),
        subtitle: subtitle.map(str::to_owned),
        path: "/library/book.cbz".to_owned(),
        source_fingerprint: "fp".to_owned(),
        page_count: 12,
        thumbnail_status: ThumbnailStatus::Missing,
        availability: ComicAvailability::Available,
        series: None,
        series_key: None,
        folder_label: None,
        folder_key: None,
        writer: None,
        number: None,
        is_read: false,
        current_page: 0,
    }
}

#[test]
fn left_to_right_buttons_go_first_previous_next_last() {
    let buttons = nav_buttons(0, 5, ReadingDirection::LeftToRight);

    let commands = buttons.iter().map(|b| b.command).collect::<Vec<_>>();
    assert_eq!(
        commands,
        [
            PageNavigationCommand::FirstPage,
            PageNavigationCommand::PreviousPage,
            PageNavigationCommand::NextPage,
            PageNavigationCommand::LastPage
        ]
    );
    assert_eq!(buttons.iter().map(|b| b.enabled).collect::<Vec<_>>(), [false, false, true, true]);
    assert_eq!(buttons[0].arrow, NavArrow::DoubleLeft);
    assert_eq!(buttons[2].tooltip, "Next page (Right)");
}

#[test]
fn right_to_left_buttons_mirror_the_commands() {
    let buttons = nav_buttons(4, 5, ReadingDirection::RightToLeft);

    let commands = buttons.iter().map(|b| b.command).collect::<Vec<_>>();
    assert_eq!(
        commands,
        [
            PageNavigationCommand::LastPage,
            PageNavigationCommand::NextPage,
            PageNavigationCommand::PreviousPage,
            PageNavigationCommand::FirstPage
        ]
    );
    assert_eq!(buttons.iter().map(|b| b.enabled).collect::<Vec<_>>(), [false, false, true, true]);
    assert_eq!(buttons[1].arrow, NavArrow::Left);
    assert_eq!(buttons[1].tooltip, "Next page (Left)");
}

#[test]
fn single_page_comic_disables_every_button() {
    let buttons = nav_buttons(0, 1, ReadingDirection::LeftToRight);
    assert!(buttons.iter().all(|b| !b.enabled));
}

#[test]
fn page_counter_is_one_based() {
    assert_eq!(page_counter_text(0, 12), "1 / 12");
    assert_eq!(page_counter_text(11, 12), "12 / 12");
    assert_eq!(page_counter_text(usize::MAX, 3), format!("{} / 3", usize::MAX));
}

#[test]
fn row_details_list_pages_series_and_writer() {
    let mut row = item("Book", None);
    assert_eq!(row_details_text(&row), "12 pages");
    row.page_count = 1;
    row.series = Some("Saga".to_owned());
    assert_eq!(row_details_text(&row), "1 page  |  Saga");
    row.writer = Some("Vaughan".to_owned());
    assert_eq!(row_details_text(&row), "1 page  |  Saga  |  Vaughan");
    row.series = None;
    assert_eq!(row_details_text(&row), "1 page  |  Vaughan");
}

#[test]
fn tiles_explain_cut_off_titles() {
    assert_eq!(tile_hover_text(&item("Short", Some("Also short"))), None);
    assert_eq!(
        tile_hover_text(&item("A title that is far too long", Some("Sub"))),
        Some("A title that is far too long\nSub".to_owned())
    );
    assert_eq!(
        tile_hover_text(&item("Short", Some("A subtitle that is too long"))),
        Some("Short\nA subtitle that is too long".to_owned())
    );
    assert_eq!(
        tile_hover_text(&item("Exactly twenty-two ch.", None)),
        None
    );
    assert_eq!(read_toggle_label(true), "Mark as unread");
    assert_eq!(read_toggle_label(false), "Mark as read");
}

#[test]
fn sidebar_requests_only_unknown_visible_thumbnails() {
    let pending: HashSet<usize> = [2].into_iter().collect();
    let failed: HashSet<usize> = [4].into_iter().collect();

    assert_eq!(
        page_thumbnail_candidates(&vec![5, 1, 2, 3, 4], &vec![3], &pending, &failed),
        [5, 1]
    );
}

#[test]
fn escape_closes_the_topmost_window_first_then_leaves() {
    let mut windows = ReaderWindows {
        settings_open: true,
        shortcuts_open: false,
        about_open: true,
        adjustments_open: false,
        info_panel_open: true,
    };

    assert!(windows.close_topmost());
    assert!(!windows.settings_open);
    assert!(windows.about_open);
    assert!(windows.close_topmost());
    assert!(!windows.about_open);
    assert!(windows.info_panel_open);
    assert!(windows.close_topmost());
    assert_eq!(windows, ReaderWindows::default());
    assert!(!windows.close_topmost());
    assert_eq!(windows, ReaderWindows::default());
}
