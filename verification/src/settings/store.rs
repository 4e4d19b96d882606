//! All settings together, and the store that holds them with their file.

use vstd::prelude::*;

use crate::settings::terminal::TerminalSettings;
use crate::settings::ui::{UiSettings, HALF_F32_BITS};

verus! {

/// All setting groups.
#[derive(Clone, Debug)]
pub struct Settings {
    pub terminal: TerminalSettings,
    pub ui: UiSettings,
}

impl Default for Settings {
    /// The default of each group.
    fn default() -> (r: Self)
        ensures
            r.terminal.font_size == 12,
            r.terminal.font_family@ == "Menlo"@,
            r.terminal.padding.horizontal == 8 && r.terminal.padding.vertical == 8,
            r.terminal.enable_url_recognition,
            r.terminal.scrollback_lines == 10000,
            r.terminal.shell is None,
            r.ui.theme@ == "dark"@,
            r.ui.terminal_width_ratio == HALF_F32_BITS,
            r.ui.show_preview,
            r.ui.autosave_interval == 0,
    {
        Settings { terminal: TerminalSettings::default(), ui: UiSettings::default() }
    }
}

/// The current settings together with the file they are saved to.
pub struct SettingsStore {
    settings: Settings,
    settings_path: String,
}

impl SettingsStore {
    /// Settings held by the store.
    pub closed spec fn current(&self) -> Settings {
        self.settings
    }

    /// Path of the settings file.
    pub closed spec fn path(&self) -> Seq<char> {
        self.settings_path@
    }

    /// A store holding the given settings, saved to the given file.
    pub fn with_settings(settings: Settings, settings_path: String) -> (r: Self)
        ensures
            r.current() == settings,
            r.path() == settings_path@,
    {
        SettingsStore { settings, settings_path }
    }

    /// The current settings.
    pub fn settings(&self) -> (r: &Settings)
        ensures
            *r == self.current(),
    {
        &self.settings
    }

    /// The current settings, for modification (save them afterwards).
    pub fn settings_mut(&mut self) -> (r: &mut Settings)
        ensures
            *r == old(self).current(),
            final(self).current() == *final(r),
            final(self).path() == old(self).path(),
    {
        &mut self.settings
    }

    /// Path of the settings file.
    pub fn settings_path(&self) -> (r: &String)
        ensures
            r@ == self.path(),
    {
        &self.settings_path
    }
}

} // verus!
