//! Viewer decisions: page identities, prefetch scheduling, spread
//! composition and the commands the reader reacts to.
pub mod commands;
pub mod continuous;
pub mod layout;
pub mod prefetch;
pub mod spread;
pub mod state;

pub use commands::{AppCommand, PageNavigationCommand, ViewCommand, ViewerChrome};
pub use continuous::{all_window_pages, overdraw_pages, PageMeasurementSource};
pub use layout::{PageId, PixelSize, ViewMode};
pub use prefetch::{
    is_stale_result, prefetch_candidates, result_matches_generation, spread_prefetch_candidates,
    PageGeneration, PrefetchState,
};
pub use spread::{
    decide_spread, ordered_spread_pages, spread_result_matches_generation, PageResourceIdentity,
    ReadingDirection, ReadingLayoutMode, SpreadDecision, SpreadGeneration, SpreadSideStatus,
};
pub use state::{PageStatus, ViewerState, ZoomIdentity};
