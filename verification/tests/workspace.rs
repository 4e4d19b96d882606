use terminalg::ui::workspace::{pane_layout, reset_pane_ratios, toggle_pane, PaneType};
use terminalg::ui::workspace_config::{WorkspaceConfig, WorkspaceConfigStore, WorkspacesConfig};

fn new_store() -> WorkspaceConfigStore {
    WorkspaceConfigStore::with_config(WorkspacesConfig::default(), "workspace.json".to_string())
}

#[test]
fn test_workspace_config_defaults() {
    let config = WorkspaceConfig::default();
    assert_eq!(config.id, "default");
    assert!(config.file_browser_visible);
    assert!(config.terminal_visible);
    assert!(!config.document_viewer_visible);
    let ratios: Vec<f32> = config.pane_ratios.iter().map(|b| f32::from_bits(*b)).collect();
    assert_eq!(ratios, vec![1.0, 2.0, 1.0]);
}

#[test]
fn test_workspaces_config_defaults() {
    let config = WorkspacesConfig::default();
    assert_eq!(config.active_workspace_index, 0);
    assert_eq!(config.workspaces.len(), 2);
    assert_eq!(config.workspaces[1].id, "debug");
    assert!(!config.workspaces[1].file_browser_visible);
    assert!(config.workspaces[1].document_viewer_visible);
}

#[test]
fn test_workspace_switch() {
    let mut store = new_store();

    assert_eq!(store.config().active_workspace_index, 0);
    store.switch_workspace(1);
    assert_eq!(store.config().active_workspace_index, 1);
    store.switch_workspace(2);
    assert_eq!(store.config().active_workspace_index, 1);
}

#[test]
fn test_active_workspace() {
    let store = new_store();

    let active = store.active_workspace();
    assert_eq!(active.id, "default");
}

#[test]
fn test_active_workspace_mut() {
    let mut store = new_store();

    let active = store.active_workspace_mut();
    active.name = "Modified".to_string();

    assert_eq!(store.active_workspace().name, "Modified");
}

#[test]
fn test_validate_config_fixes_invalid_index() {
    let mut config = WorkspacesConfig {
        active_workspace_index: 99, // Invalid - way out of bounds
        workspaces: vec![WorkspaceConfig::default()],
    };

    WorkspaceConfigStore::validate_config(&mut config);

    assert_eq!(config.active_workspace_index, 0);
}

#[test]
fn test_validate_config_adds_default_workspace_if_empty() {
    let mut config = WorkspacesConfig {
        active_workspace_index: 0,
        workspaces: vec![], // Empty!
    };

    WorkspaceConfigStore::validate_config(&mut config);

    assert_eq!(config.workspaces.len(), 1);
    assert_eq!(config.workspaces[0].id, "default");
}

#[test]
fn test_active_workspace_handles_corrupted_index() {
    // Create store and manually corrupt the index
    let mut store = new_store();
    store.config_mut().active_workspace_index = 999; // Corrupt!

    // Should not panic, should return first workspace
    let active = store.active_workspace();
    assert_eq!(active.id, "default");
}

#[test]
fn test_active_workspace_mut_fixes_corrupted_index() {
    // Create store and manually corrupt the index
    let mut store = new_store();
    store.config_mut().active_workspace_index = 999; // Corrupt!

    // Should not panic, should fix index and return first workspace
    let active = store.active_workspace_mut();
    assert_eq!(active.id, "default");
    assert_eq!(store.config().active_workspace_index, 0); // Index was fixed
}

#[test]
fn store_validates_loaded_config() {
    let store = WorkspaceConfigStore::with_config(
        WorkspacesConfig { active_workspace_index: 3, workspaces: vec![] },
        "w.json".to_string(),
    );
    assert_eq!(store.config().workspaces.len(), 1);
    assert_eq!(store.config().active_workspace_index, 0);
    assert_eq!(store.config_path(), "w.json");
}

#[test]
fn toggling_panes_and_resetting_ratios() {
    let mut store = new_store();
    store.switch_workspace(1);
    toggle_pane(&mut store, PaneType::FileBrowser);
    assert!(store.active_workspace().file_browser_visible);
    toggle_pane(&mut store, PaneType::DocumentViewer);
    assert!(!store.active_workspace().document_viewer_visible);
    toggle_pane(&mut store, PaneType::DocumentViewer);
    assert!(store.active_workspace().document_viewer_visible);
    toggle_pane(&mut store, PaneType::Terminal);
    assert!(!store.active_workspace().terminal_visible);
    // The other workspace is untouched.
    assert!(store.config().workspaces[0].terminal_visible);

    store.active_workspace_mut().pane_ratios = [0, 0, 0];
    reset_pane_ratios(&mut store);
    assert_eq!(store.active_workspace().pane_ratios, [1.0f32.to_bits(), 2.0f32.to_bits(), 1.0f32.to_bits()]);
}

#[test]
fn dividers_show_between_visible_neighbours() {
    let mut ws = WorkspaceConfig::default();
    ws.file_browser_visible = true;
    ws.terminal_visible = true;
    ws.document_viewer_visible = true;
    let l = pane_layout(&ws);
    assert!(l.file_browser && l.terminal && l.document_viewer);
    assert!(l.left_divider && l.right_divider);
    ws.terminal_visible = false;
    let l = pane_layout(&ws);
    assert!(l.file_browser && !l.terminal && l.document_viewer);
    assert!(!l.left_divider && !l.right_divider);
    ws.terminal_visible = true;
    ws.file_browser_visible = false;
    let l = pane_layout(&ws);
    assert!(!l.left_divider && l.right_divider);
}
