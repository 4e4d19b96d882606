use terminalg::settings::terminal::TerminalSettings;
use terminalg::theme::Theme;

#[test]
fn settings_adapter_test_module_compiles() {
    // Basic compilation test - verifying the module structure exists
    let _ = TerminalSettings::default();
}

#[test]
fn theme_adapter_test_module_compiles() {
    // Basic compilation test - the theme types are reachable
    let _ = Theme::dark();
}
