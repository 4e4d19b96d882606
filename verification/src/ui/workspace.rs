//! Workspace view rules: pane visibility and pane widths of the active
//! workspace.

use vstd::prelude::*;

use crate::ui::workspace_config::{
    default_pane_ratios, default_ratios, effective_active_index, WorkspaceConfig,
    WorkspaceConfigStore, WorkspaceConfigView,
};

verus! {

/// The three panes of a workspace.
#[derive(Clone, Copy, Debug, PartialEq, Eq, Structural)]
pub enum PaneType {
    FileBrowser,
    Terminal,
    DocumentViewer,
}

/// A workspace with the visibility of one pane flipped.
pub open spec fn with_pane_toggled(w: WorkspaceConfigView, pane_type: PaneType) -> WorkspaceConfigView {
    match pane_type {
        PaneType::FileBrowser => WorkspaceConfigView { file_browser_visible: !w.file_browser_visible, ..w },
        PaneType::Terminal => WorkspaceConfigView { terminal_visible: !w.terminal_visible, ..w },
        PaneType::DocumentViewer => WorkspaceConfigView {
            document_viewer_visible: !w.document_viewer_visible,
            ..w
        },
    }
}

/// Toggling a pane flips that pane's visibility and nothing else: the
/// other two panes, the id, the name and the pane widths stay as they were.
pub proof fn law_toggle_changes_only_that_pane(w: WorkspaceConfigView, pane_type: PaneType)
    ensures
        with_pane_toggled(w, pane_type).id == w.id,
        with_pane_toggled(w, pane_type).name == w.name,
        with_pane_toggled(w, pane_type).pane_ratios == w.pane_ratios,
        with_pane_toggled(w, pane_type).file_browser_visible == (w.file_browser_visible != (pane_type
            == PaneType::FileBrowser)),
        with_pane_toggled(w, pane_type).terminal_visible == (w.terminal_visible != (pane_type
            == PaneType::Terminal)),
        with_pane_toggled(w, pane_type).document_viewer_visible == (w.document_viewer_visible != (
        pane_type == PaneType::DocumentViewer)),
{
}

/// Shows or hides a pane of the active workspace (the first workspace
/// when the active index is out of range, which is then reset to it).
pub fn toggle_pane(store: &mut WorkspaceConfigStore, pane_type: PaneType)
    requires
        old(store).current().workspaces.len() > 0,
    ensures
        final(store).current().active_workspace_index == effective_active_index(old(store).current()),
        final(store).current().workspaces == old(store).current().workspaces.update(
            effective_active_index(old(store).current()),
            with_pane_toggled(
                old(store).current().workspaces[effective_active_index(old(store).current())],
                pane_type,
            ),
        ),
        final(store).path() == old(store).path(),
{
    let ws = store.active_workspace_mut();
    match pane_type {
        PaneType::FileBrowser => {
            ws.file_browser_visible = !ws.file_browser_visible;
        },
        PaneType::Terminal => {
            ws.terminal_visible = !ws.terminal_visible;
        },
        PaneType::DocumentViewer => {
            ws.document_viewer_visible = !ws.document_viewer_visible;
        },
    }
}

/// Puts the pane widths of the active workspace back to 1 : 2 : 1.
pub fn reset_pane_ratios(store: &mut WorkspaceConfigStore)
    requires
        old(store).current().workspaces.len() > 0,
    ensures
        final(store).current().active_workspace_index == effective_active_index(old(store).current()),
        final(store).current().workspaces == old(store).current().workspaces.update(
            effective_active_index(old(store).current()),
            WorkspaceConfigView {
                pane_ratios: default_ratios(),
                ..old(store).current().workspaces[effective_active_index(old(store).current())]
            },
        ),
        final(store).path() == old(store).path(),
{
    let ws = store.active_workspace_mut();
    ws.pane_ratios = default_pane_ratios();
}

/// Hiding and showing a pane again gives back the workspace as it was.
pub proof fn law_toggle_pane_twice_restores(w: WorkspaceConfigView, pane_type: PaneType)
    ensures
        with_pane_toggled(with_pane_toggled(w, pane_type), pane_type) == w,
{
}

/// What the content area of a workspace shows: each pane, and a divider
/// between two neighbouring panes when both are shown.
#[derive(Clone, Copy, Debug, PartialEq, Eq, Structural)]
pub struct PaneLayout {
    pub file_browser: bool,
    pub terminal: bool,
    pub document_viewer: bool,
    /// Divider between the file browser and the terminal.
    pub left_divider: bool,
    /// Divider between the terminal and the document viewer.
    pub right_divider: bool,
}

/// The panes and dividers a workspace shows.
pub fn pane_layout(ws: &WorkspaceConfig) -> (r: PaneLayout)
    ensures
        r.file_browser == ws.file_browser_visible,
        r.terminal == ws.terminal_visible,
        r.document_viewer == ws.document_viewer_visible,
        r.left_divider == (ws.file_browser_visible && ws.terminal_visible),
        r.right_divider == (ws.terminal_visible && ws.document_viewer_visible),
{
    PaneLayout {
        file_browser: ws.file_browser_visible,
        terminal: ws.terminal_visible,
        document_viewer: ws.document_viewer_visible,
        left_divider: ws.file_browser_visible && ws.terminal_visible,
        right_divider: ws.terminal_visible && ws.document_viewer_visible,
    }
}

} // verus!
