//! Reader navigation: where a command takes the reader, and page numbers
//! typed by the user.
use vstd::prelude::*;

use crate::text::{chars_of, parse_usize, parsed_usize, trim_chars, trimmed};
use crate::viewer::commands::PageNavigationCommand;

verus! {

/// The last page index of a comic of `page_count` pages (0 for none).
pub open spec fn last_page(page_count: usize) -> int {
    if page_count == 0 {
        0
    } else {
        page_count - 1
    }
}

/// `a` clamped to at most `b`.
pub open spec fn at_most(a: int, b: int) -> int {
    if a < b {
        a
    } else {
        b
    }
}

/// The page a navigation command leads to, one page at a time: back one (not
/// before the first), forward one (not past the last), the first, the last,
/// or the requested page clamped to the last.
pub open spec fn navigation_target(command: PageNavigationCommand, current: usize, page_count: usize) -> int {
    match command {
        PageNavigationCommand::PreviousPage | PageNavigationCommand::ScrollUp => if current == 0 {
            0
        } else {
            current - 1
        },
        PageNavigationCommand::NextPage | PageNavigationCommand::ScrollDown => at_most(
            current + 1,
            last_page(page_count),
        ),
        PageNavigationCommand::FirstPage => 0,
        PageNavigationCommand::LastPage => last_page(page_count),
        PageNavigationCommand::GoToPage(index) => at_most(index as int, last_page(page_count)),
    }
}

pub fn resolve_navigation_target(
    command: PageNavigationCommand,
    current_page_index: usize,
    page_count: usize,
) -> (r: usize)
    ensures
        r == navigation_target(command, current_page_index, page_count),
{
    let last = page_count.saturating_sub(1);
    match command {
        PageNavigationCommand::PreviousPage | PageNavigationCommand::ScrollUp => current_page_index.saturating_sub(1),
        PageNavigationCommand::NextPage | PageNavigationCommand::ScrollDown => {
            let next = current_page_index.saturating_add(1);
            if next < last {
                next
            } else {
                last
            }
        },
        PageNavigationCommand::FirstPage => 0,
        PageNavigationCommand::LastPage => last,
        PageNavigationCommand::GoToPage(index) => if index < last {
            index
        } else {
            last
        },
    }
}

/// Where the reader goes for a command and whether the move is a jump
/// (first, last, or a chosen page) that the continuous view must scroll to.
#[derive(Debug, Clone, Copy, PartialEq, Eq, Structural)]
pub struct NavigationPlan {
    pub target: usize,
    pub is_jump: bool,
}

/// The page a command leads to when a two-page spread may be on screen: with
/// a pair shown, next and previous step over both pages.
pub open spec fn spread_navigation_target(
    command: PageNavigationCommand,
    current: usize,
    page_count: usize,
    pair_shown: bool,
) -> int {
    if pair_shown {
        match command {
            PageNavigationCommand::NextPage | PageNavigationCommand::ScrollDown => at_most(
                current + 2,
                last_page(page_count),
            ),
            PageNavigationCommand::PreviousPage | PageNavigationCommand::ScrollUp => if current < 2 {
                0
            } else {
                current - 2
            },
            _ => navigation_target(command, current, page_count),
        }
    } else {
        navigation_target(command, current, page_count)
    }
}

/// Whether a command jumps rather than steps.
pub open spec fn is_jump_command(command: PageNavigationCommand) -> bool {
    match command {
        PageNavigationCommand::FirstPage | PageNavigationCommand::LastPage | PageNavigationCommand::GoToPage(_) => true,
        _ => false,
    }
}

/// Plans a navigation command for a reader on `current_page_index` of a
/// comic of `page_count` pages; `pair_shown` tells whether a two-page spread
/// is on screen in paged mode.
pub fn plan_navigation(
    command: PageNavigationCommand,
    current_page_index: usize,
    page_count: usize,
    pair_shown: bool,
) -> (r: NavigationPlan)
    ensures
        r.target == spread_navigation_target(command, current_page_index, page_count, pair_shown),
        r.is_jump == is_jump_command(command),
{
    let last = page_count.saturating_sub(1);
    let target = if pair_shown {
        match command {
            PageNavigationCommand::NextPage | PageNavigationCommand::ScrollDown => {
                let next = current_page_index.saturating_add(2);
                if next < last {
                    next
                } else {
                    last
                }
            },
            PageNavigationCommand::PreviousPage | PageNavigationCommand::ScrollUp => current_page_index.saturating_sub(2),
            _ => resolve_navigation_target(command, current_page_index, page_count),
        }
    } else {
        resolve_navigation_target(command, current_page_index, page_count)
    };
    let is_jump = match command {
        PageNavigationCommand::FirstPage | PageNavigationCommand::LastPage | PageNavigationCommand::GoToPage(_) => true,
        _ => false,
    };
    NavigationPlan { target, is_jump }
}

/// Navigation never leaves the comic: from a page inside it, every command
/// leads to a page inside it.
pub proof fn lemma_navigation_stays_in_comic(
    command: PageNavigationCommand,
    current: usize,
    page_count: usize,
    pair_shown: bool,
)
    requires
        current < page_count,
    ensures
        0 <= spread_navigation_target(command, current, page_count, pair_shown) < page_count,
{
}

/// One page at a time (no pair shown): previous goes back one page and next
/// forward one, stopping at the first and last pages; first, last and
/// go-to land on the first page, the last page and the requested page (at
/// most the last).
pub proof fn lemma_single_page_steps(current: usize, page_count: usize, index: usize)
    requires
        current < page_count,
    ensures
        current >= 1 ==> spread_navigation_target(PageNavigationCommand::PreviousPage, current, page_count, false)
            == current - 1,
        current >= 1 ==> spread_navigation_target(PageNavigationCommand::ScrollUp, current, page_count, false)
            == current - 1,
        current == 0 ==> spread_navigation_target(PageNavigationCommand::PreviousPage, current, page_count, false)
            == 0,
        current + 1 < page_count ==> spread_navigation_target(
            PageNavigationCommand::NextPage,
            current,
            page_count,
            false,
        ) == current + 1,
        current + 1 < page_count ==> spread_navigation_target(
            PageNavigationCommand::ScrollDown,
            current,
            page_count,
            false,
        ) == current + 1,
        current + 1 == page_count ==> spread_navigation_target(
            PageNavigationCommand::NextPage,
            current,
            page_count,
            false,
        ) == current,
        forall|pair_shown: bool|
            spread_navigation_target(PageNavigationCommand::FirstPage, current, page_count, pair_shown) == 0,
        forall|pair_shown: bool|
            spread_navigation_target(PageNavigationCommand::LastPage, current, page_count, pair_shown) == page_count
                - 1,
        forall|pair_shown: bool|
            spread_navigation_target(PageNavigationCommand::GoToPage(index), current, page_count, pair_shown) == if index
                < page_count {
                index as int
            } else {
                page_count - 1
            },
{
}

/// With a two-page pair shown, previous and next step over the whole pair:
/// back two pages (to the first page when fewer lie before) and forward two
/// (stopping at the last page). Stepping back over a pair and then forward
/// again returns to the same page, so the pairs shown never overlap.
pub proof fn lemma_pair_steps(current: usize, page_count: usize)
    requires
        current < page_count,
    ensures
        current >= 2 ==> spread_navigation_target(PageNavigationCommand::PreviousPage, current, page_count, true)
            == current - 2,
        current >= 2 ==> spread_navigation_target(PageNavigationCommand::ScrollUp, current, page_count, true)
            == current - 2,
        current < 2 ==> spread_navigation_target(PageNavigationCommand::PreviousPage, current, page_count, true)
            == 0,
        current + 2 < page_count ==> spread_navigation_target(
            PageNavigationCommand::NextPage,
            current,
            page_count,
            true,
        ) == current + 2,
        current + 2 < page_count ==> spread_navigation_target(
            PageNavigationCommand::ScrollDown,
            current,
            page_count,
            true,
        ) == current + 2,
        current + 2 >= page_count ==> spread_navigation_target(
            PageNavigationCommand::NextPage,
            current,
            page_count,
            true,
        ) == page_count - 1,
        current >= 2 ==> spread_navigation_target(
            PageNavigationCommand::NextPage,
            (current - 2) as usize,
            page_count,
            true,
        ) == current,
{
}

/// A typed page number is 1-based: number `n` of a comic of at least `n`
/// pages opens page index `n - 1`; a number past the end opens the last
/// page; zero, and any number for a comic without pages, open nothing.
pub proof fn lemma_typed_page_numbers(input: Seq<char>, page_count: usize, n: usize)
    ensures
        parsed_usize(trimmed(input)) == Some(n) && 1 <= n <= page_count ==> goto_target(input, page_count) == Some(
            (n - 1) as usize,
        ),
        parsed_usize(trimmed(input)) == Some(n) && n > page_count && page_count >= 1 ==> goto_target(
            input,
            page_count,
        ) == Some((page_count - 1) as usize),
        parsed_usize(trimmed(input)) == Some(0usize) ==> goto_target(input, page_count) is None,
        page_count == 0 ==> goto_target(input, page_count) is None,
        parsed_usize(trimmed(input)) is None ==> goto_target(input, page_count) is None,
{
}

/// The page index for a typed 1-based page number: surrounding whitespace is
/// ignored, zero, text that is not a number and a comic without pages give
/// nothing, and numbers past the end give the last page.
pub open spec fn goto_target(input: Seq<char>, page_count: usize) -> Option<usize> {
    match parsed_usize(trimmed(input)) {
        Some(n) => if n == 0 || page_count == 0 {
            None
        } else {
            Some(at_most(n - 1, page_count - 1) as usize)
        },
        None => None,
    }
}

pub fn parse_goto_target(input: &str, page_count: usize) -> (r: Option<usize>)
    ensures
        r == goto_target(input@, page_count),
{
    let chars = chars_of(input);
    let trimmed_chars = trim_chars(&chars);
    let page_number = match parse_usize(&trimmed_chars) {
        Some(n) => n,
        None => {
            return None;
        },
    };
    if page_number == 0 || page_count == 0 {
        return None;
    }
    let index = page_number - 1;
    let last = page_count - 1;
    Some(
        if index < last {
            index
        } else {
            last
        },
    )
}

} // verus!
