//! Commands the reader reacts to, and what the reader shows around a page.
use vstd::prelude::*;

verus! {

/// Moving through the pages of a comic.
#[derive(Debug, Clone, Copy, PartialEq, Eq, Structural)]
pub enum PageNavigationCommand {
    PreviousPage,
    NextPage,
    ScrollUp,
    ScrollDown,
    FirstPage,
    LastPage,
    GoToPage(usize),
}

/// Commands the viewer carries out while it renders.
#[derive(Debug, Clone, Copy, PartialEq, Eq, Structural)]
pub enum ViewCommand {
    Fit,
    Fill,
    FitWidth,
    FitHeight,
    OneToOne,
    ZoomIn,
    ZoomOut,
}

/// Commands the application carries out, because they need the archive, a
/// cache reset or a new decode.
#[derive(Debug, Clone, Copy, PartialEq, Eq, Structural)]
pub enum AppCommand {
    ToggleSpread,
    ToggleContinuous,
    RotateLeft,
    RotateRight,
    ExtractPage,
}

/// The controls around the page: whether they are shown, the status line and
/// whether the spread toggle is offered.
#[derive(Debug, Clone, PartialEq)]
pub struct ViewerChrome {
    pub visible: bool,
    pub status_text: Option<String>,
    pub spread_toggle_visible: bool,
}

impl Default for ViewerChrome {
    fn default() -> (r: Self)
        ensures
            r.visible,
            r.status_text is None,
            r.spread_toggle_visible,
    {
        ViewerChrome { visible: true, status_text: None, spread_toggle_visible: true }
    }
}

} // verus!
