//! Terminal settings.

use vstd::prelude::*;

verus! {

/// Inner spacing of the terminal, in pixels.
#[derive(Clone, Copy, Debug)]
pub struct Padding {
    pub horizontal: u32,
    pub vertical: u32,
}

/// Settings of the terminal pane.
#[derive(Clone, Debug)]
pub struct TerminalSettings {
    /// Font size in points.
    pub font_size: u32,
    /// Font family name.
    pub font_family: String,
    /// Terminal padding.
    pub padding: Padding,
    /// Enable URL recognition and clickable links.
    pub enable_url_recognition: bool,
    /// Number of scrollback lines to keep.
    pub scrollback_lines: usize,
    /// Shell to launch (for instance `/bin/zsh`); the system shell when absent.
    pub shell: Option<String>,
}

impl Default for TerminalSettings {
    /// 12 pt Menlo, 8 px padding on each side, URL recognition on, 10000
    /// lines of scrollback, the system shell.
    fn default() -> (r: Self)
        ensures
            r.font_size == 12,
            r.font_family@ == "Menlo"@,
            r.padding.horizontal == 8 && r.padding.vertical == 8,
            r.enable_url_recognition,
            r.scrollback_lines == 10000,
            r.shell is None,
    {
        TerminalSettings {
            font_size: 12,
            font_family: "Menlo".to_owned(),
            padding: Padding { horizontal: 8, vertical: 8 },
            enable_url_recognition: true,
            scrollback_lines: 10000,
            shell: None,
        }
    }
}

} // verus!
