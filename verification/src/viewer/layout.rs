//! Page identities and page sizes in pixels.
use vstd::prelude::*;

verus! {

/// The identity of a page: its index in reading order.
#[derive(Debug, Clone, Copy, PartialEq, Eq, Hash, Structural)]
pub struct PageId(pub u64);

/// The pixel size of a decoded page.
#[derive(Debug, Clone, Copy, PartialEq, Eq, Structural)]
pub struct PixelSize {
    pub width: u32,
    pub height: u32,
}

impl PixelSize {
    /// A size is usable when both sides are positive.
    pub open spec fn valid(self) -> bool {
        self.width > 0 && self.height > 0
    }

    /// A usable page wider than it is tall: a spread already stitched into
    /// one image.
    pub open spec fn landscape(self) -> bool {
        self.valid() && self.width > self.height
    }

    pub fn is_valid(self) -> (r: bool)
        ensures
            r == self.valid(),
    {
        self.width > 0 && self.height > 0
    }

    pub fn is_landscape(self) -> (r: bool)
        ensures
            r == self.landscape(),
    {
        self.is_valid() && self.width > self.height
    }
}

/// How a page is scaled into the viewport.
#[derive(Debug, Clone, Copy, Default, PartialEq, Eq, Structural)]
pub enum ViewMode {
    #[default]
    Fit,
    Fill,
    FitWidth,
    FitHeight,
}

} // verus!
