//! Terminal pane: tabs per workspace, drawn content, input and link handling.

pub mod element;
pub mod pane;
pub mod tab;

pub use pane::{TerminalPane, TerminalPaneEvent};
pub use tab::TerminalTab;
