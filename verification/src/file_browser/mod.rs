//! File browser: tree state, context menu, entry details and the pane.

pub mod context_menu;
pub mod pane;
pub mod render;
pub mod state;

pub use pane::{FileBrowserPane, FileBrowserPaneEvent};
