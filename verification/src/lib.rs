//! TerminalG core: the state and the rules behind the terminal workspace,
//! its file browser, its terminal tabs, settings and themes.

pub mod file_browser;
pub mod text;
pub mod path;
pub mod theme;
pub mod settings;
pub mod ui;
pub mod str_map;
pub mod terminal;
