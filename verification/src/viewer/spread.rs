//! Two-page spreads: whether the current page is shown alone or beside the
//! next one, and in which order the two pages stand.
use vstd::prelude::*;

use crate::viewer::layout::{PageId, PixelSize};

verus! {

/// The direction pages are read in.
#[derive(Debug, Clone, Copy, Default, PartialEq, Eq, Structural)]
pub enum ReadingDirection {
    #[default]
    LeftToRight,
    RightToLeft,
}

/// Page by page, or all pages in one vertical strip.
#[derive(Debug, Clone, Copy, Default, PartialEq, Eq, Structural)]
pub enum ReadingLayoutMode {
    #[default]
    Paged,
    ContinuousVertical,
}

/// The generation of the spread on display.
#[derive(Debug, Clone, Copy, PartialEq, Eq, Hash, Structural)]
pub struct SpreadGeneration(pub u64);

/// A page together with the spread generation it was requested for.
#[derive(Debug, Clone, Copy, PartialEq, Eq, Structural)]
pub struct PageResourceIdentity {
    pub page_id: PageId,
    pub generation: SpreadGeneration,
}

/// How far the page beside the current one has come.
#[derive(Debug, Clone, PartialEq, Eq)]
pub enum SpreadSideStatus {
    Absent,
    Pending { page_id: PageId },
    Ready { page_id: PageId },
    Failed { page_id: PageId, message: String },
}

/// What the viewer composes on screen.
#[derive(Debug, Clone, PartialEq, Eq)]
pub enum SpreadDecision {
    Single { page_id: PageId },
    SinglePreStitched { page_id: PageId },
    SingleNoNext { page_id: PageId },
    Pair { left_page_id: PageId, right_page_id: PageId },
    PairPending { left_page_id: PageId, right_page_id: PageId },
    PairFailed { left_page_id: PageId, right_page_id: PageId, message: String },
}

impl SpreadDecision {
    /// The page a decision is anchored on: the single page, or the left one of
    /// a pair.
    pub open spec fn primary(self) -> PageId {
        match self {
            SpreadDecision::Single { page_id } => page_id,
            SpreadDecision::SinglePreStitched { page_id } => page_id,
            SpreadDecision::SingleNoNext { page_id } => page_id,
            SpreadDecision::Pair { left_page_id, .. } => left_page_id,
            SpreadDecision::PairPending { left_page_id, .. } => left_page_id,
            SpreadDecision::PairFailed { left_page_id, .. } => left_page_id,
        }
    }

    /// The second page of a pair, if the decision is one.
    pub open spec fn partner(self) -> Option<PageId> {
        match self {
            SpreadDecision::Pair { right_page_id, .. } => Some(right_page_id),
            SpreadDecision::PairPending { right_page_id, .. } => Some(right_page_id),
            SpreadDecision::PairFailed { right_page_id, .. } => Some(right_page_id),
            _ => None,
        }
    }

    pub fn primary_page_id(&self) -> (r: PageId)
        ensures
            r == self.primary(),
    {
        match self {
            SpreadDecision::Single { page_id } => *page_id,
            SpreadDecision::SinglePreStitched { page_id } => *page_id,
            SpreadDecision::SingleNoNext { page_id } => *page_id,
            SpreadDecision::Pair { left_page_id, .. } => *left_page_id,
            SpreadDecision::PairPending { left_page_id, .. } => *left_page_id,
            SpreadDecision::PairFailed { left_page_id, .. } => *left_page_id,
        }
    }

    /// The pages a composition shows, which zoom and pan are keyed on.
    pub fn composition_key(&self) -> (r: (PageId, Option<PageId>))
        ensures
            r == (self.primary(), self.partner()),
    {
        match self {
            SpreadDecision::Pair { left_page_id, right_page_id } => (*left_page_id, Some(*right_page_id)),
            SpreadDecision::PairPending { left_page_id, right_page_id } => (*left_page_id, Some(*right_page_id)),
            SpreadDecision::PairFailed { left_page_id, right_page_id, .. } => (*left_page_id, Some(*right_page_id)),
            _ => (self.primary_page_id(), None),
        }
    }
}

/// The spread the viewer should compose: the current page alone when spreads
/// are off, when it is already a stitched landscape spread or when there is no
/// next page; otherwise beside the next page, which is shown once ready,
/// reported once failed and awaited until then. A status that belongs to
/// another page counts as still pending.
pub open spec fn spread_for(
    enabled: bool,
    current: PageId,
    current_size: PixelSize,
    next: Option<PageId>,
    next_status: SpreadSideStatus,
) -> SpreadDecision {
    if !enabled {
        SpreadDecision::Single { page_id: current }
    } else if current_size.landscape() {
        SpreadDecision::SinglePreStitched { page_id: current }
    } else {
        match next {
            None => SpreadDecision::SingleNoNext { page_id: current },
            Some(right) => match next_status {
                SpreadSideStatus::Ready { page_id } if page_id == right => SpreadDecision::Pair {
                    left_page_id: current,
                    right_page_id: right,
                },
                SpreadSideStatus::Failed { page_id, message } if page_id == right => SpreadDecision::PairFailed {
                    left_page_id: current,
                    right_page_id: right,
                    message,
                },
                _ => SpreadDecision::PairPending { left_page_id: current, right_page_id: right },
            },
        }
    }
}

pub fn decide_spread(
    spread_mode_enabled: bool,
    current_page_id: PageId,
    current_size: PixelSize,
    next_page_id: Option<PageId>,
    next_status: SpreadSideStatus,
) -> (r: SpreadDecision)
    ensures
        r == spread_for(spread_mode_enabled, current_page_id, current_size, next_page_id, next_status),
        r.primary() == current_page_id,
{
    if !spread_mode_enabled {
        return SpreadDecision::Single { page_id: current_page_id };
    }
    if current_size.is_landscape() {
        return SpreadDecision::SinglePreStitched { page_id: current_page_id };
    }
    let right_page_id = match next_page_id {
        Some(p) => p,
        None => {
            return SpreadDecision::SingleNoNext { page_id: current_page_id };
        },
    };
    match next_status {
        SpreadSideStatus::Ready { page_id } => {
            if page_id.0 == right_page_id.0 {
                SpreadDecision::Pair { left_page_id: current_page_id, right_page_id }
            } else {
                SpreadDecision::PairPending { left_page_id: current_page_id, right_page_id }
            }
        },
        SpreadSideStatus::Failed { page_id, message } => {
            if page_id.0 == right_page_id.0 {
                SpreadDecision::PairFailed { left_page_id: current_page_id, right_page_id, message }
            } else {
                SpreadDecision::PairPending { left_page_id: current_page_id, right_page_id }
            }
        },
        _ => SpreadDecision::PairPending { left_page_id: current_page_id, right_page_id },
    }
}

/// A result for the page beside the current one is still wanted: same
/// generation, same page.
pub fn spread_result_matches_generation(
    active_generation: SpreadGeneration,
    result_generation: SpreadGeneration,
    active_page_id: PageId,
    result_page_id: PageId,
) -> (r: bool)
    ensures
        r == (active_generation == result_generation && active_page_id == result_page_id),
{
    active_generation.0 == result_generation.0 && active_page_id.0 == result_page_id.0
}

/// The screen order of a spread's two pages: as read for left-to-right
/// comics, swapped for right-to-left ones.
pub open spec fn screen_order(left: PageId, right: PageId, direction: ReadingDirection) -> (PageId, PageId) {
    match direction {
        ReadingDirection::LeftToRight => (left, right),
        ReadingDirection::RightToLeft => (right, left),
    }
}

pub fn ordered_spread_pages(left_page_id: PageId, right_page_id: PageId, direction: ReadingDirection) -> (r: (
    PageId,
    PageId,
))
    ensures
        r == screen_order(left_page_id, right_page_id, direction),
{
    match direction {
        ReadingDirection::LeftToRight => (left_page_id, right_page_id),
        ReadingDirection::RightToLeft => (right_page_id, left_page_id),
    }
}

/// Ordering a spread's pages twice for the same direction gives back the
/// reading order, and the two directions show the same pages swapped.
pub proof fn lemma_screen_order_involution(left: PageId, right: PageId, direction: ReadingDirection)
    ensures
        screen_order(screen_order(left, right, direction).0, screen_order(left, right, direction).1, direction)
            == (left, right),
        screen_order(left, right, ReadingDirection::RightToLeft) == (
            screen_order(left, right, ReadingDirection::LeftToRight).1,
            screen_order(left, right, ReadingDirection::LeftToRight).0,
        ),
{
}

/// A left-to-right comic shows the earlier page of a spread on the left; a
/// right-to-left comic shows it on the right.
pub proof fn lemma_screen_order_by_direction(left: PageId, right: PageId)
    ensures
        screen_order(left, right, ReadingDirection::LeftToRight) == (left, right),
        screen_order(left, right, ReadingDirection::RightToLeft) == (right, left),
{
}

/// Two pages are shown side by side only when spreads are on, the current
/// page is not landscape (a landscape page is already a spread of its own),
/// and the next page is decoded; then the current page and the next one
/// are paired. With spreads off the current page is shown alone.
pub proof fn lemma_spread_pairs(
    enabled: bool,
    current: PageId,
    current_size: PixelSize,
    next: Option<PageId>,
    next_status: SpreadSideStatus,
    right: PageId,
)
    ensures
        !enabled ==> spread_for(enabled, current, current_size, next, next_status) == (SpreadDecision::Single {
            page_id: current,
        }),
        enabled && current_size.landscape() ==> spread_for(enabled, current, current_size, next, next_status) == (
        SpreadDecision::SinglePreStitched { page_id: current }),
        (spread_for(enabled, current, current_size, next, next_status) matches SpreadDecision::Pair {
            left_page_id,
            right_page_id,
        } ==> enabled && !current_size.landscape() && left_page_id == current && next == Some(right_page_id)
            && next_status == (SpreadSideStatus::Ready { page_id: right_page_id })),
        enabled && !current_size.landscape() && next == Some(right) && next_status == (SpreadSideStatus::Ready {
            page_id: right,
        }) ==> spread_for(enabled, current, current_size, next, next_status) == (SpreadDecision::Pair {
            left_page_id: current,
            right_page_id: right,
        }),
{
}

} // verus!
