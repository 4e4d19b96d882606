//! Workspace layout: configuration and pane visibility.

pub mod workspace;
pub mod workspace_config;

pub use workspace::PaneType;
pub use workspace_config::{WorkspaceConfig, WorkspaceConfigStore, WorkspacesConfig};
