//! Application settings: terminal and interface groups, and their store.

pub mod store;
pub mod terminal;
pub mod ui;

pub use store::{Settings, SettingsStore};
pub use terminal::TerminalSettings;
pub use ui::UiSettings;
