//! Widgets of a terminal data browser: a scrollable table viewer with
//! column windowing and rectangular cell selection, an autocomplete
//! popup over a fixed keyword list, and a modal error dialog.
//!
//! The widgets here hold only plain state (strings, indices, flags) and
//! pure logic; painting them on a terminal is left to the caller.

pub mod completion;
pub mod error;
pub mod events;
pub mod scroll;
pub mod table;
pub mod text;
pub mod window;

pub use completion::CompletionComponent;
pub use error::ErrorComponent;
pub use table::TableComponent;
pub use window::CellConstraint;
