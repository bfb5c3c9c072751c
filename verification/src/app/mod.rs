//! The application state machines for library browsing and reading.
pub mod browse;
pub mod chrome;
pub mod covers;
pub mod labels;
pub mod reader;
pub mod session;
pub mod shelves;
pub mod view;

pub use browse::LibrarySortOption;
pub use session::{InFlightPrefetch, PrefetchRuntime, ProgressSnapshot};
pub use view::{AppState, LibraryViewMode, LibraryViewState};
