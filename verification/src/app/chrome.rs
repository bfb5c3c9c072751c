//! What the reader's controls and the library's rows say and offer: the
//! page buttons (mirrored for right-to-left comics), the page counter, a
//! row's details line and a tile's hover text, and which window Escape
//! closes.
use vstd::prelude::*;

use crate::library::models::LibraryGridItem;
use crate::text::{chars_of, decimal, decimal_chars, owned, push_chars};
use crate::viewer::commands::PageNavigationCommand;
use crate::viewer::spread::ReadingDirection;

verus! {

/// The arrow a page button shows, by its place on screen from left to right.
#[derive(Debug, Clone, Copy, PartialEq, Eq, Structural)]
pub enum NavArrow {
    DoubleLeft,
    Left,
    Right,
    DoubleRight,
}

/// A page button: its arrow, whether it can be pressed, its tooltip and the
/// navigation it asks for.
#[derive(Debug, Clone, Copy, PartialEq, Eq)]
pub struct NavButton {
    pub arrow: NavArrow,
    pub enabled: bool,
    pub tooltip: &'static str,
    pub command: PageNavigationCommand,
}

/// The arrow shown at screen position `i` (0 to 3, left to right).
pub open spec fn arrow_at(i: int) -> NavArrow {
    if i == 0 {
        NavArrow::DoubleLeft
    } else if i == 1 {
        NavArrow::Left
    } else if i == 2 {
        NavArrow::Right
    } else {
        NavArrow::DoubleRight
    }
}

/// The command of the button at screen position `i`: first, previous, next
/// and last page from left to right, the other way round for right-to-left
/// comics, so that the left-pointing arrows advance through them.
pub open spec fn command_at(direction: ReadingDirection, i: int) -> PageNavigationCommand {
    let k = if direction == ReadingDirection::RightToLeft {
        3 - i
    } else {
        i
    };
    if k == 0 {
        PageNavigationCommand::FirstPage
    } else if k == 1 {
        PageNavigationCommand::PreviousPage
    } else if k == 2 {
        PageNavigationCommand::NextPage
    } else {
        PageNavigationCommand::LastPage
    }
}

/// A button can be pressed unless it would go before the first page or past
/// the last one.
pub open spec fn command_enabled(command: PageNavigationCommand, current_page: usize, page_count: usize) -> bool {
    match command {
        PageNavigationCommand::FirstPage | PageNavigationCommand::PreviousPage => current_page != 0,
        _ => current_page + 1 < page_count,
    }
}

/// The tooltip of the button at screen position `i`: what it does and its
/// key. Home and End go to the first and last page; the arrow keys follow
/// the arrows on screen, so the Left key turns to the next page of a
/// right-to-left comic.
pub open spec fn tooltip_at(direction: ReadingDirection, i: int) -> Seq<char> {
    match command_at(direction, i) {
        PageNavigationCommand::FirstPage => "First page (Home)"@,
        PageNavigationCommand::LastPage => "Last page (End)"@,
        PageNavigationCommand::NextPage => if i == 1 {
            "Next page (Left)"@
        } else {
            "Next page (Right)"@
        },
        _ => if i == 1 {
            "Previous page (Left)"@
        } else {
            "Previous page (Right)"@
        },
    }
}

fn button(
    arrow: NavArrow,
    command: PageNavigationCommand,
    tooltip: &'static str,
    current_page: usize,
    page_count: usize,
) -> (r: NavButton)
    requires
        command == PageNavigationCommand::FirstPage || command == PageNavigationCommand::PreviousPage
            || command == PageNavigationCommand::NextPage || command == PageNavigationCommand::LastPage,
    ensures
        r.arrow == arrow,
        r.command == command,
        r.tooltip == tooltip,
        r.enabled == command_enabled(command, current_page, page_count),
{
    let is_first = current_page == 0;
    let is_last = current_page as u128 + 1 >= page_count as u128;
    let enabled = match command {
        PageNavigationCommand::FirstPage | PageNavigationCommand::PreviousPage => !is_first,
        _ => !is_last,
    };
    NavButton { arrow, enabled, tooltip, command }
}

/// The four page buttons of the reader on page `current_page` of
/// `page_count`, left to right.
pub fn nav_buttons(current_page: usize, page_count: usize, direction: ReadingDirection) -> (r: Vec<NavButton>)
    ensures
        r@.len() == 4,
        forall|i: int| 0 <= i < 4 ==> {
            &&& (#[trigger] r@[i]).arrow == arrow_at(i)
            &&& r@[i].command == command_at(direction, i)
            &&& r@[i].enabled == command_enabled(r@[i].command, current_page, page_count)
            &&& r@[i].tooltip@ == tooltip_at(direction, i)
        },
{
    let mut r: Vec<NavButton> = Vec::new();
    match direction {
        ReadingDirection::RightToLeft => {
            r.push(button(NavArrow::DoubleLeft, PageNavigationCommand::LastPage, "Last page (End)", current_page, page_count));
            r.push(button(NavArrow::Left, PageNavigationCommand::NextPage, "Next page (Left)", current_page, page_count));
            r.push(button(NavArrow::Right, PageNavigationCommand::PreviousPage, "Previous page (Right)", current_page, page_count));
            r.push(button(NavArrow::DoubleRight, PageNavigationCommand::FirstPage, "First page (Home)", current_page, page_count));
        },
        ReadingDirection::LeftToRight => {
            r.push(button(NavArrow::DoubleLeft, PageNavigationCommand::FirstPage, "First page (Home)", current_page, page_count));
            r.push(button(NavArrow::Left, PageNavigationCommand::PreviousPage, "Previous page (Left)", current_page, page_count));
            r.push(button(NavArrow::Right, PageNavigationCommand::NextPage, "Next page (Right)", current_page, page_count));
            r.push(button(NavArrow::DoubleRight, PageNavigationCommand::LastPage, "Last page (End)", current_page, page_count));
        },
    }
    r
}

/// Reading right to left mirrors the page buttons: the button at each place
/// does what the button at the mirrored place does left to right, and is
/// pressable exactly when that one is.
pub proof fn lemma_right_to_left_mirrors_buttons(i: int, current_page: usize, page_count: usize)
    requires
        0 <= i < 4,
    ensures
        command_at(ReadingDirection::RightToLeft, i) == command_at(ReadingDirection::LeftToRight, 3 - i),
        command_enabled(command_at(ReadingDirection::RightToLeft, i), current_page, page_count)
            == command_enabled(command_at(ReadingDirection::LeftToRight, 3 - i), current_page, page_count),
        arrow_at(i) != arrow_at(3 - i),
{
}

/// The page counter: the one-based page number, a slash, and the count.
pub open spec fn counter_text(current_page: usize, page_count: usize) -> Seq<char> {
    let shown: nat = if current_page == usize::MAX {
        usize::MAX as nat
    } else {
        (current_page + 1) as nat
    };
    decimal(shown) + " / "@ + decimal(page_count as nat)
}

/// The text of the reader's page counter.
pub fn page_counter_text(current_page: usize, page_count: usize) -> (r: String)
    ensures
        r@ == counter_text(current_page, page_count),
{
    let shown = current_page.saturating_add(1);
    let mut s = String::new();
    let a = decimal_chars(shown as u64);
    push_chars(&mut s, &a);
    let sep = chars_of(" / ");
    push_chars(&mut s, &sep);
    let b = decimal_chars(page_count as u64);
    push_chars(&mut s, &b);
    s
}

/// The details line of a library row: the page count, then the series and
/// the writer where they are known, separated by bars.
pub open spec fn details_text(item: LibraryGridItem) -> Seq<char> {
    let pages = decimal(item.page_count as nat) + (if item.page_count == 1 {
        " page"@
    } else {
        " pages"@
    });
    let with_series = match item.series {
        Some(series) => pages + "  |  "@ + series@,
        None => pages,
    };
    match item.writer {
        Some(writer) => with_series + "  |  "@ + writer@,
        None => with_series,
    }
}

/// The details line shown under a row's title in the list view.
pub fn row_details_text(item: &LibraryGridItem) -> (r: String)
    ensures
        r@ == details_text(*item),
{
    let mut s = String::new();
    let count = decimal_chars(item.page_count as u64);
    push_chars(&mut s, &count);
    let unit = if item.page_count == 1 {
        chars_of(" page")
    } else {
        chars_of(" pages")
    };
    push_chars(&mut s, &unit);
    let bar = chars_of("  |  ");
    if let Some(series) = &item.series {
        push_chars(&mut s, &bar);
        let v = chars_of(series.as_str());
        push_chars(&mut s, &v);
    }
    if let Some(writer) = &item.writer {
        push_chars(&mut s, &bar);
        let v = chars_of(writer.as_str());
        push_chars(&mut s, &v);
    }
    s
}

/// A grid tile fits this many characters of title or subtitle per line.
pub const TILE_LINE_CHARS: usize = 22;

/// The hover text of a tile whose title or subtitle is cut off: the title,
/// then the subtitle on its own line; none when both fit.
pub open spec fn hover_text(item: LibraryGridItem) -> Option<Seq<char>> {
    let cut = item.title@.len() > TILE_LINE_CHARS || (item.subtitle matches Some(s) && s@.len() > TILE_LINE_CHARS);
    if !cut {
        None
    } else {
        match item.subtitle {
            Some(s) => Some(item.title@ + "\n"@ + s@),
            None => Some(item.title@),
        }
    }
}

/// The tooltip of a library tile, when its text is cut off.
pub fn tile_hover_text(item: &LibraryGridItem) -> (r: Option<String>)
    ensures
        match r {
            Some(t) => hover_text(*item) == Some(t@),
            None => hover_text(*item) is None,
        },
{
    let title = chars_of(item.title.as_str());
    let subtitle_long = match &item.subtitle {
        Some(s) => chars_of(s.as_str()).len() > TILE_LINE_CHARS,
        None => false,
    };
    if title.len() <= TILE_LINE_CHARS && !subtitle_long {
        return None;
    }
    let mut hover = owned(item.title.as_str());
    if let Some(s) = &item.subtitle {
        let newline = chars_of("\n");
        push_chars(&mut hover, &newline);
        let v = chars_of(s.as_str());
        push_chars(&mut hover, &v);
    }
    Some(hover)
}

/// The label of the menu entry that flips a comic's read mark.
pub fn read_toggle_label(is_read: bool) -> (r: &'static str)
    ensures
        r@ == (if is_read {
            "Mark as unread"@
        } else {
            "Mark as read"@
        }),
{
    if is_read {
        "Mark as unread"
    } else {
        "Mark as read"
    }
}

} // verus!

verus! {

/// The windows and panels that can stand over the reader, in the order
/// Escape closes them.
#[derive(Debug, Clone, Copy, PartialEq, Eq, Default, Structural)]
pub struct ReaderWindows {
    pub settings_open: bool,
    pub shortcuts_open: bool,
    pub about_open: bool,
    pub adjustments_open: bool,
    pub info_panel_open: bool,
}

impl ReaderWindows {
    /// Whether any window or panel is open.
    pub open spec fn any_open(self) -> bool {
        self.settings_open || self.shortcuts_open || self.about_open || self.adjustments_open
            || self.info_panel_open
    }

    /// How many windows and panels are open.
    pub open spec fn open_count(self) -> nat {
        (if self.settings_open { 1nat } else { 0nat }) + (if self.shortcuts_open { 1nat } else { 0nat }) + (
        if self.about_open { 1nat } else { 0nat }) + (if self.adjustments_open { 1nat } else { 0nat }) + (
        if self.info_panel_open { 1nat } else { 0nat })
    }

    /// The windows after one Escape: the topmost open one, in the order
    /// settings, shortcuts, about, adjustments panel, info panel, is closed.
    pub open spec fn after_escape(self) -> ReaderWindows {
        if self.settings_open {
            ReaderWindows { settings_open: false, ..self }
        } else if self.shortcuts_open {
            ReaderWindows { shortcuts_open: false, ..self }
        } else if self.about_open {
            ReaderWindows { about_open: false, ..self }
        } else if self.adjustments_open {
            ReaderWindows { adjustments_open: false, ..self }
        } else {
            ReaderWindows { info_panel_open: false, ..self }
        }
    }

    /// The windows after `n` presses of Escape while the reader stays open.
    pub open spec fn after_escapes(self, n: nat) -> ReaderWindows
        decreases n,
    {
        if n == 0 {
            self
        } else {
            self.after_escape().after_escapes((n - 1) as nat)
        }
    }

    /// Escape closes the topmost open window. Returns whether one was
    /// closed; when none was, Escape leaves the reader.
    pub fn close_topmost(&mut self) -> (closed: bool)
        ensures
            closed == old(self).any_open(),
            *final(self) == old(self).after_escape(),
    {
        if self.settings_open {
            self.settings_open = false;
            return true;
        }
        if self.shortcuts_open {
            self.shortcuts_open = false;
            return true;
        }
        if self.about_open {
            self.about_open = false;
            return true;
        }
        if self.adjustments_open {
            self.adjustments_open = false;
            return true;
        }
        if self.info_panel_open {
            self.info_panel_open = false;
            return true;
        }
        false
    }
}

/// Each Escape over an open window closes exactly one; so as many presses
/// as there are open windows close them all, and the next press leaves the
/// reader.
pub proof fn lemma_escape_closes_every_window(windows: ReaderWindows)
    ensures
        windows.any_open() ==> windows.after_escape().open_count() + 1 == windows.open_count(),
        !windows.after_escapes(windows.open_count()).any_open(),
    decreases windows.open_count(),
{
    if windows.any_open() {
        lemma_escape_closes_every_window(windows.after_escape());
        assert(windows.after_escapes(windows.open_count()) == windows.after_escape().after_escapes(
            windows.after_escape().open_count(),
        ));
    }
}

} // verus!
