//! The viewer's state machine: which page is composed, how far its decode
//! has come, whether a spread is shown, and when zoom and pan start over.
use vstd::prelude::*;

use crate::viewer::commands::{AppCommand, PageNavigationCommand, ViewCommand, ViewerChrome};
use crate::viewer::layout::{PageId, PixelSize, ViewMode};
use crate::viewer::spread::{
    decide_spread, spread_for, ReadingDirection, ReadingLayoutMode, SpreadDecision, SpreadSideStatus,
};

verus! {

/// What zoom and pan are keyed on: the page and the composition on screen,
/// and how often the view was reset. The zoom factor and pan offset
/// themselves start over each time `reset_generation` moves.
#[derive(Debug, Clone, Copy, PartialEq, Eq, Default)]
pub struct ZoomIdentity {
    pub active_page_id: Option<PageId>,
    pub active_composition: Option<(PageId, Option<PageId>)>,
    pub reset_generation: u64,
}

/// `g + 1`, staying at the largest value.
pub open spec fn bumped(g: u64) -> u64 {
    if g == u64::MAX {
        g
    } else {
        (g + 1) as u64
    }
}

impl ZoomIdentity {
    /// Keys the view on a single page; returns whether zoom and pan start
    /// over, which they do unless that page is already the active one.
    pub fn reset_for_page(&mut self, page_id: PageId) -> (r: bool)
        ensures
            r == (old(self).active_page_id != Some(page_id)),
            !r ==> *final(self) == *old(self),
            r ==> *final(self) == (ZoomIdentity {
                active_page_id: Some(page_id),
                active_composition: Some((page_id, None)),
                reset_generation: bumped(old(self).reset_generation),
            }),
    {
        if self.active_page_id == Some(page_id) {
            return false;
        }
        self.reset_generation = self.reset_generation.saturating_add(1);
        self.active_page_id = Some(page_id);
        self.active_composition = Some((page_id, None));
        true
    }

    /// Starts zoom and pan over and keys the view on no page, as a new
    /// orientation of the pages does.
    pub fn start_over(&mut self)
        ensures
            *final(self) == (ZoomIdentity {
                active_page_id: None,
                active_composition: None,
                reset_generation: bumped(old(self).reset_generation),
            }),
    {
        self.reset_generation = self.reset_generation.saturating_add(1);
        self.active_page_id = None;
        self.active_composition = None;
    }

    /// Keys the view on a composition of one or two pages; returns whether
    /// zoom and pan start over, which they do unless it is already active.
    pub fn reset_for_composition(&mut self, left_page_id: PageId, right_page_id: Option<PageId>) -> (r: bool)
        ensures
            r == (old(self).active_composition != Some((left_page_id, right_page_id))),
            !r ==> *final(self) == *old(self),
            r ==> *final(self) == (ZoomIdentity {
                active_page_id: Some(left_page_id),
                active_composition: Some((left_page_id, right_page_id)),
                reset_generation: bumped(old(self).reset_generation),
            }),
    {
        let same = match self.active_composition {
            Some((left, right)) => left.0 == left_page_id.0 && match (right, right_page_id) {
                (Some(a), Some(b)) => a.0 == b.0,
                (None, None) => true,
                _ => false,
            },
            None => false,
        };
        if same {
            return false;
        }
        self.reset_generation = self.reset_generation.saturating_add(1);
        self.active_page_id = Some(left_page_id);
        self.active_composition = Some((left_page_id, right_page_id));
        true
    }
}

/// How far a page's decode has come.
#[derive(Debug, Clone, PartialEq, Eq)]
pub enum PageStatus<T> {
    Empty,
    Loading { page_id: PageId },
    Ready { page_id: PageId, texture: T, pixel_size: PixelSize },
    Failed { page_id: PageId, message: String },
}

impl<T> PageStatus<T> {
    pub fn empty() -> (r: Self)
        ensures
            r is Empty,
    {
        PageStatus::Empty
    }

    pub fn loading(page_id: PageId) -> (r: Self)
        ensures
            r == (PageStatus::<T>::Loading { page_id }),
    {
        PageStatus::Loading { page_id }
    }

    pub fn ready(page_id: PageId, texture: T, pixel_size: PixelSize) -> (r: Self)
        ensures
            r == (PageStatus::Ready { page_id, texture, pixel_size }),
    {
        PageStatus::Ready { page_id, texture, pixel_size }
    }

    pub fn failed(page_id: PageId, message: String) -> (r: Self)
        ensures
            r == (PageStatus::<T>::Failed { page_id, message }),
    {
        PageStatus::Failed { page_id, message }
    }

    /// The page a status is about, if any.
    pub open spec fn page(&self) -> Option<PageId> {
        match self {
            PageStatus::Empty => None,
            PageStatus::Loading { page_id } => Some(*page_id),
            PageStatus::Ready { page_id, .. } => Some(*page_id),
            PageStatus::Failed { page_id, .. } => Some(*page_id),
        }
    }

    pub fn page_id(&self) -> (r: Option<PageId>)
        ensures
            r == self.page(),
    {
        match self {
            PageStatus::Empty => None,
            PageStatus::Loading { page_id } => Some(*page_id),
            PageStatus::Ready { page_id, .. } => Some(*page_id),
            PageStatus::Failed { page_id, .. } => Some(*page_id),
        }
    }

    pub fn is_empty(&self) -> (r: bool)
        ensures
            r == (self is Empty),
    {
        match self {
            PageStatus::Empty => true,
            _ => false,
        }
    }

    pub fn is_loading(&self) -> (r: bool)
        ensures
            r == (self is Loading),
    {
        match self {
            PageStatus::Loading { .. } => true,
            _ => false,
        }
    }

    pub fn is_ready(&self) -> (r: bool)
        ensures
            r == (self is Ready),
    {
        match self {
            PageStatus::Ready { .. } => true,
            _ => false,
        }
    }

    pub fn is_failed(&self) -> (r: bool)
        ensures
            r == (self is Failed),
    {
        match self {
            PageStatus::Failed { .. } => true,
            _ => false,
        }
    }
}

/// The side status a spread decision reads from the next page's status.
pub open spec fn side_status<T>(status: PageStatus<T>) -> SpreadSideStatus {
    match status {
        PageStatus::Ready { page_id, .. } => SpreadSideStatus::Ready { page_id },
        PageStatus::Loading { page_id } => SpreadSideStatus::Pending { page_id },
        PageStatus::Failed { page_id, message } => SpreadSideStatus::Failed { page_id, message },
        PageStatus::Empty => SpreadSideStatus::Absent,
    }
}

/// The state of the page viewer.
#[derive(Debug, Clone, PartialEq)]
pub struct ViewerState<T> {
    /// The page the paged view composes; zoom, pan and the spread are keyed
    /// on it.
    pub current_page_id: Option<PageId>,
    pub view_mode: ViewMode,
    pub zoom: ZoomIdentity,
    pub page_status: PageStatus<T>,
    pub chrome: ViewerChrome,
    pub spread_mode_enabled: bool,
    pub spread_decision: Option<SpreadDecision>,
    pub next_page_status: PageStatus<T>,
    pub reading_direction: ReadingDirection,
    pub layout_mode: ReadingLayoutMode,
    pub pending_navigation: Option<PageNavigationCommand>,
    pub pending_view_command: Option<ViewCommand>,
    pub pending_app_command: Option<AppCommand>,
    pub pending_bookmark_toggle: bool,
}

/// `a` and `b` agree on the view mode, the chrome, the reading direction,
/// the layout and the pending commands.
pub open spec fn settings_kept<T>(a: ViewerState<T>, b: ViewerState<T>) -> bool {
    &&& a.view_mode == b.view_mode
    &&& a.chrome == b.chrome
    &&& a.reading_direction == b.reading_direction
    &&& a.layout_mode == b.layout_mode
    &&& a.pending_navigation == b.pending_navigation
    &&& a.pending_view_command == b.pending_view_command
    &&& a.pending_app_command == b.pending_app_command
    &&& a.pending_bookmark_toggle == b.pending_bookmark_toggle
}

/// `a` and `b` agree on the composed page, its status and the spread setting.
pub open spec fn page_kept<T>(a: ViewerState<T>, b: ViewerState<T>) -> bool {
    &&& a.current_page_id == b.current_page_id
    &&& a.page_status == b.page_status
    &&& a.spread_mode_enabled == b.spread_mode_enabled
}

/// The zoom identity of a viewer that never composed a page.
pub open spec fn unkeyed() -> ZoomIdentity {
    ZoomIdentity { active_page_id: None, active_composition: None, reset_generation: 0 }
}

impl<T> ViewerState<T> {
    /// The continuous view never shows spreads.
    pub open spec fn wf(&self) -> bool {
        self.layout_mode == ReadingLayoutMode::ContinuousVertical ==> !self.spread_mode_enabled
    }

    /// A fresh viewer: nothing composed, paged layout, fit to the window.
    pub fn new() -> (r: Self)
        ensures
            r.wf(),
            r.current_page_id is None,
            r.view_mode == ViewMode::Fit,
            r.zoom == unkeyed(),
            r.page_status is Empty,
            r.chrome.visible,
            r.chrome.status_text is None,
            !r.spread_mode_enabled,
            r.spread_decision is None,
            r.next_page_status is Empty,
            r.reading_direction == ReadingDirection::LeftToRight,
            r.layout_mode == ReadingLayoutMode::Paged,
            r.pending_navigation is None,
            r.pending_view_command is None,
            r.pending_app_command is None,
            !r.pending_bookmark_toggle,
    {
        ViewerState {
            current_page_id: None,
            view_mode: ViewMode::Fit,
            zoom: ZoomIdentity { active_page_id: None, active_composition: None, reset_generation: 0 },
            page_status: PageStatus::Empty,
            chrome: ViewerChrome::default(),
            spread_mode_enabled: false,
            spread_decision: None,
            next_page_status: PageStatus::Empty,
            reading_direction: ReadingDirection::LeftToRight,
            layout_mode: ReadingLayoutMode::Paged,
            pending_navigation: None,
            pending_view_command: None,
            pending_app_command: None,
            pending_bookmark_toggle: false,
        }
    }

    /// Composes another page: zoom and pan start over for it, and the spread
    /// and the next page's status are forgotten. Composing the same page
    /// again changes nothing.
    pub fn set_composed_page(&mut self, page_id: PageId)
        ensures
            old(self).current_page_id == Some(page_id) ==> *final(self) == *old(self),
            old(self).current_page_id != Some(page_id) ==> {
                &&& final(self).current_page_id == Some(page_id)
                &&& final(self).zoom.active_page_id == Some(page_id)
                &&& old(self).zoom.active_page_id != Some(page_id) ==> final(self).zoom.reset_generation
                    == bumped(old(self).zoom.reset_generation)
                &&& old(self).zoom.active_page_id == Some(page_id) ==> final(self).zoom == old(self).zoom
                &&& final(self).spread_decision is None
                &&& final(self).next_page_status is Empty
                &&& final(self).page_status == old(self).page_status
                &&& final(self).spread_mode_enabled == old(self).spread_mode_enabled
                &&& settings_kept(*old(self), *final(self))
            },
            old(self).wf() ==> final(self).wf(),
    {
        if self.current_page_id != Some(page_id) {
            self.current_page_id = Some(page_id);
            self.zoom.reset_for_page(page_id);
            self.spread_decision = None;
            self.next_page_status = PageStatus::Empty;
        }
    }

    /// Turns spreads on or off; the continuous view refuses to turn them on.
    /// A change forgets the spread and starts zoom and pan over for the
    /// composed page.
    pub fn set_spread_mode_enabled(&mut self, enabled: bool)
        ensures
            (enabled && old(self).layout_mode == ReadingLayoutMode::ContinuousVertical)
                || old(self).spread_mode_enabled == enabled ==> *final(self) == *old(self),
            !(enabled && old(self).layout_mode == ReadingLayoutMode::ContinuousVertical)
                && old(self).spread_mode_enabled != enabled ==> {
                &&& final(self).spread_mode_enabled == enabled
                &&& final(self).spread_decision is None
                &&& final(self).current_page_id == old(self).current_page_id
                &&& final(self).page_status == old(self).page_status
                &&& final(self).next_page_status == old(self).next_page_status
                &&& settings_kept(*old(self), *final(self))
                &&& old(self).current_page_id is None ==> final(self).zoom == old(self).zoom
                &&& old(self).current_page_id matches Some(p) ==> final(self).zoom.active_page_id == Some(p)
            },
            old(self).wf() ==> final(self).wf(),
    {
        if enabled && self.layout_mode == ReadingLayoutMode::ContinuousVertical {
            return;
        }
        if self.spread_mode_enabled != enabled {
            self.spread_mode_enabled = enabled;
            if let Some(page_id) = self.current_page_id {
                self.zoom.reset_for_page(page_id);
            }
            self.spread_decision = None;
        }
    }

    /// Changes the reading direction; a spread on screen is recomposed, so
    /// zoom and pan are keyed on it again.
    pub fn set_reading_direction(&mut self, direction: ReadingDirection)
        ensures
            final(self).reading_direction == direction,
            page_kept(*old(self), *final(self)),
            final(self).spread_decision == old(self).spread_decision,
            final(self).next_page_status == old(self).next_page_status,
            final(self).view_mode == old(self).view_mode,
            final(self).chrome == old(self).chrome,
            final(self).layout_mode == old(self).layout_mode,
            old(self).reading_direction == direction || old(self).spread_decision is None ==> final(self).zoom
                == old(self).zoom,
            old(self).wf() ==> final(self).wf(),
    {
        if self.reading_direction != direction {
            self.reading_direction = direction;
            if let Some(decision) = &self.spread_decision {
                let (left, right) = decision.composition_key();
                self.zoom.reset_for_composition(left, right);
            }
        }
    }

    /// Switches between the paged and the continuous layout. Entering the
    /// continuous layout turns spreads off and forgets the next page; any
    /// change starts zoom and pan over for the composed page.
    pub fn set_layout_mode(&mut self, layout_mode: ReadingLayoutMode)
        ensures
            final(self).layout_mode == layout_mode,
            old(self).layout_mode == layout_mode ==> *final(self) == *old(self),
            old(self).layout_mode != layout_mode && layout_mode == ReadingLayoutMode::ContinuousVertical ==> {
                &&& !final(self).spread_mode_enabled
                &&& final(self).next_page_status is Empty
                &&& final(self).spread_decision is None
            },
            old(self).layout_mode != layout_mode && layout_mode == ReadingLayoutMode::Paged ==> {
                &&& final(self).spread_mode_enabled == old(self).spread_mode_enabled
                &&& final(self).next_page_status == old(self).next_page_status
                &&& final(self).spread_decision == old(self).spread_decision
            },
            final(self).current_page_id == old(self).current_page_id,
            final(self).page_status == old(self).page_status,
            final(self).view_mode == old(self).view_mode,
            final(self).reading_direction == old(self).reading_direction,
            old(self).wf() || old(self).layout_mode != layout_mode ==> final(self).wf(),
    {
        if self.layout_mode != layout_mode {
            self.layout_mode = layout_mode;
            match layout_mode {
                ReadingLayoutMode::ContinuousVertical => {
                    self.spread_mode_enabled = false;
                    self.next_page_status = PageStatus::Empty;
                    self.spread_decision = None;
                },
                ReadingLayoutMode::Paged => {},
            }
            if let Some(page_id) = self.current_page_id {
                self.zoom.reset_for_page(page_id);
            }
        }
    }

    /// The composed page is being decoded.
    pub fn set_loading(&mut self, page_id: PageId)
        ensures
            final(self).current_page_id == Some(page_id),
            final(self).page_status == (PageStatus::<T>::Loading { page_id }),
            final(self).chrome.status_text matches Some(t) && t@ == "Loading page"@,
            old(self).wf() ==> final(self).wf(),
    {
        self.set_composed_page(page_id);
        self.page_status = PageStatus::Loading { page_id };
        self.chrome.status_text = Some(crate::text::owned("Loading page"));
    }

    /// The composed page is decoded and ready to show.
    pub fn set_ready(&mut self, page_id: PageId, texture: T, pixel_size: PixelSize)
        ensures
            final(self).current_page_id == Some(page_id),
            final(self).page_status == (PageStatus::Ready { page_id, texture, pixel_size }),
            final(self).chrome.status_text == None::<String>,
            old(self).wf() ==> final(self).wf(),
    {
        self.set_composed_page(page_id);
        self.page_status = PageStatus::Ready { page_id, texture, pixel_size };
        self.chrome.status_text = None;
    }

    /// The composed page could not be decoded; the message is shown.
    pub fn set_failed(&mut self, page_id: PageId, message: String)
        ensures
            final(self).current_page_id == Some(page_id),
            final(self).page_status == (PageStatus::<T>::Failed { page_id, message }),
            final(self).chrome.status_text == Some(message),
            old(self).wf() ==> final(self).wf(),
    {
        self.set_composed_page(page_id);
        let shown = message.clone();
        self.page_status = PageStatus::Failed { page_id, message };
        self.chrome.status_text = Some(shown);
    }

    /// The next page is being decoded.
    pub fn set_next_loading(&mut self, page_id: PageId)
        ensures
            final(self).next_page_status == (PageStatus::<T>::Loading { page_id }),
            page_kept(*old(self), *final(self)),
            settings_kept(*old(self), *final(self)),
            final(self).zoom == old(self).zoom,
            final(self).spread_decision == old(self).spread_decision,
    {
        self.next_page_status = PageStatus::Loading { page_id };
    }

    /// The next page is decoded.
    pub fn set_next_ready(&mut self, page_id: PageId, texture: T, pixel_size: PixelSize)
        ensures
            final(self).next_page_status == (PageStatus::Ready { page_id, texture, pixel_size }),
            page_kept(*old(self), *final(self)),
            settings_kept(*old(self), *final(self)),
            final(self).zoom == old(self).zoom,
            final(self).spread_decision == old(self).spread_decision,
    {
        self.next_page_status = PageStatus::Ready { page_id, texture, pixel_size };
    }

    /// The next page could not be decoded.
    pub fn set_next_failed(&mut self, page_id: PageId, message: String)
        ensures
            final(self).next_page_status == (PageStatus::<T>::Failed { page_id, message }),
            page_kept(*old(self), *final(self)),
            settings_kept(*old(self), *final(self)),
            final(self).zoom == old(self).zoom,
            final(self).spread_decision == old(self).spread_decision,
    {
        self.next_page_status = PageStatus::Failed { page_id, message };
    }

    /// Decides what to compose from the composed page's status and the next
    /// page's: nothing until the composed page is ready, then the spread
    /// `decide_spread` chooses, with zoom and pan keyed on its pages.
    pub fn recompute_spread_decision(&mut self, next_page_id: Option<PageId>)
        ensures
            page_kept(*old(self), *final(self)),
            settings_kept(*old(self), *final(self)),
            final(self).next_page_status == old(self).next_page_status,
            !(old(self).page_status is Ready) ==> final(self).spread_decision is None && final(self).zoom
                == old(self).zoom,
            old(self).page_status matches PageStatus::Ready { page_id, pixel_size, .. } ==> (final(self).spread_decision
                == Some(
                spread_for(
                    old(self).spread_mode_enabled,
                    page_id,
                    pixel_size,
                    next_page_id,
                    side_status(old(self).next_page_status),
                ),
            )),
            final(self).spread_decision matches Some(d) ==> final(self).zoom.active_composition == Some(
                (d.primary(), d.partner()),
            ),
            final(self).spread_decision matches Some(d) ==> (old(self).zoom.active_composition == Some(
                (d.primary(), d.partner()),
            ) <==> final(self).zoom == old(self).zoom),
            old(self).wf() ==> final(self).wf(),
    {
        let (page_id, pixel_size) = match &self.page_status {
            PageStatus::Ready { page_id, pixel_size, .. } => (*page_id, *pixel_size),
            _ => {
                self.spread_decision = None;
                return;
            },
        };
        let next_status = match &self.next_page_status {
            PageStatus::Ready { page_id, .. } => SpreadSideStatus::Ready { page_id: *page_id },
            PageStatus::Loading { page_id } => SpreadSideStatus::Pending { page_id: *page_id },
            PageStatus::Failed { page_id, message } => SpreadSideStatus::Failed {
                page_id: *page_id,
                message: message.clone(),
            },
            PageStatus::Empty => SpreadSideStatus::Absent,
        };
        let decision = decide_spread(self.spread_mode_enabled, page_id, pixel_size, next_page_id, next_status);
        let (left, right) = decision.composition_key();
        self.zoom.reset_for_composition(left, right);
        self.spread_decision = Some(decision);
    }
}

} // verus!
