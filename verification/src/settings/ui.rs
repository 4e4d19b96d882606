//! Interface settings.

use vstd::prelude::*;

verus! {

/// Bit pattern of the `f32` value 0.5.
pub const HALF_F32_BITS: u32 = 0x3f00_0000;

/// Settings of the interface.
#[derive(Clone, Debug)]
pub struct UiSettings {
    /// Theme name (for instance `dark`, `light`, `nord`).
    pub theme: String,
    /// Share of the width given to the terminal pane (0.0 to 1.0), held as
    /// the bit pattern of an `f32` (`f32::to_bits`).
    pub terminal_width_ratio: u32,
    /// Show the preview/viewer pane.
    pub show_preview: bool,
    /// Auto-save interval in seconds (0 = disabled).
    pub autosave_interval: u32,
}

impl Default for UiSettings {
    /// Dark theme, half the width for the terminal, preview shown, no
    /// auto-save.
    fn default() -> (r: Self)
        ensures
            r.theme@ == "dark"@,
            r.terminal_width_ratio == HALF_F32_BITS,
            r.show_preview,
            r.autosave_interval == 0,
    {
        UiSettings {
            theme: "dark".to_owned(),
            terminal_width_ratio: HALF_F32_BITS,
            show_preview: true,
            autosave_interval: 0,
        }
    }
}

} // verus!
