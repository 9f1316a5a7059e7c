//! Orchestration core of a project-wide text search: building and validating
//! queries, ordering streamed results, navigating matches and coordinating a
//! semantic indexing subsystem.

pub mod text;
pub mod query;
pub mod navigation;
pub mod paths;
pub mod session;
pub mod semantic;
pub mod view;
pub mod panes;

pub use panes::{init, ProjectSearchBar, ViewEvent};
pub use view::ProjectSearchView;
