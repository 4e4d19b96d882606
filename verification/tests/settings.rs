use terminalg::settings::store::{Settings, SettingsStore};
use terminalg::settings::terminal::TerminalSettings;
use terminalg::settings::ui::UiSettings;

fn ratio(bits: u32) -> f32 {
    f32::from_bits(bits)
}

#[test]
fn test_ui_settings_defaults_are_correct() {
    let settings = UiSettings::default();

    assert_eq!(settings.theme, "dark");
    assert!((ratio(settings.terminal_width_ratio) - 0.5).abs() < f32::EPSILON);
    assert!(settings.show_preview);
    assert_eq!(settings.autosave_interval, 0);
}

#[test]
fn test_ui_settings_with_custom_values() {
    let settings = UiSettings {
        theme: "nord".to_string(),
        terminal_width_ratio: 0.7f32.to_bits(),
        show_preview: false,
        autosave_interval: 60,
    };

    assert_eq!(settings.theme, "nord");
    assert!((ratio(settings.terminal_width_ratio) - 0.7).abs() < f32::EPSILON);
    assert!(!settings.show_preview);
    assert_eq!(settings.autosave_interval, 60);
}

#[test]
fn test_ui_settings_terminal_width_ratio_bounds() {
    // Test with various width ratios
    let settings_min = UiSettings {
        terminal_width_ratio: 0.0f32.to_bits(),
        ..Default::default()
    };
    assert!(ratio(settings_min.terminal_width_ratio).abs() < f32::EPSILON);

    let settings_max = UiSettings {
        terminal_width_ratio: 1.0f32.to_bits(),
        ..Default::default()
    };
    assert!((ratio(settings_max.terminal_width_ratio) - 1.0).abs() < f32::EPSILON);

    let settings_mid = UiSettings {
        terminal_width_ratio: 0.5f32.to_bits(),
        ..Default::default()
    };
    assert!((ratio(settings_mid.terminal_width_ratio) - 0.5).abs() < f32::EPSILON);
}

#[test]
fn test_ui_settings_autosave_disabled() {
    let settings = UiSettings::default();
    // Default should have autosave disabled (0 = disabled)
    assert_eq!(settings.autosave_interval, 0);
}

#[test]
fn test_ui_settings_clone() {
    let settings = UiSettings::default();
    let cloned = settings.clone();

    assert_eq!(cloned.theme, settings.theme);
    assert!((ratio(cloned.terminal_width_ratio) - ratio(settings.terminal_width_ratio)).abs() < f32::EPSILON);
    assert_eq!(cloned.show_preview, settings.show_preview);
    assert_eq!(cloned.autosave_interval, settings.autosave_interval);
}

#[test]
fn terminal_settings_defaults() {
    let t = TerminalSettings::default();
    assert_eq!(t.font_size, 12);
    assert_eq!(t.font_family, "Menlo");
    assert_eq!((t.padding.horizontal, t.padding.vertical), (8, 8));
    assert!(t.enable_url_recognition);
    assert_eq!(t.scrollback_lines, 10000);
    assert!(t.shell.is_none());
}

#[test]
fn settings_store_holds_and_updates_settings() {
    let mut store = SettingsStore::with_settings(Settings::default(), "/tmp/settings.json".to_string());
    assert_eq!(store.settings().ui.theme, "dark");
    store.settings_mut().ui.theme = "light".to_string();
    assert_eq!(store.settings().ui.theme, "light");
    assert_eq!(store.settings_path(), "/tmp/settings.json");
}
