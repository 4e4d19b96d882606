//! Workspace configuration: the workspaces, which panes each shows and
//! how wide they are, and which workspace is active.

use vstd::prelude::*;

verus! {

/// Bit pattern of the `f32` value 1.0.
pub const ONE_F32_BITS: u32 = 0x3f80_0000;

/// Bit pattern of the `f32` value 2.0.
pub const TWO_F32_BITS: u32 = 0x4000_0000;

/// Configuration of one workspace.
#[derive(Clone, Debug)]
pub struct WorkspaceConfig {
    /// Unique workspace identifier.
    pub id: String,
    /// Human-readable name.
    pub name: String,
    /// Whether the file browser pane is visible.
    pub file_browser_visible: bool,
    /// Whether the terminal pane is visible.
    pub terminal_visible: bool,
    /// Whether the document viewer pane is visible.
    pub document_viewer_visible: bool,
    /// Relative widths of the file browser, terminal and document viewer
    /// panes (`[1.0, 2.0, 1.0]` is 25%, 50%, 25%), each held as the bit
    /// pattern of an `f32` (`f32::to_bits`).
    pub pane_ratios: [u32; 3],
}

/// A workspace configuration as plain values.
pub struct WorkspaceConfigView {
    pub id: Seq<char>,
    pub name: Seq<char>,
    pub file_browser_visible: bool,
    pub terminal_visible: bool,
    pub document_viewer_visible: bool,
    pub pane_ratios: [u32; 3],
}

impl View for WorkspaceConfig {
    type V = WorkspaceConfigView;

    open spec fn view(&self) -> WorkspaceConfigView {
        WorkspaceConfigView {
            id: self.id@,
            name: self.name@,
            file_browser_visible: self.file_browser_visible,
            terminal_visible: self.terminal_visible,
            document_viewer_visible: self.document_viewer_visible,
            pane_ratios: self.pane_ratios,
        }
    }
}

/// The default pane widths, 1 : 2 : 1.
pub open spec fn default_ratios() -> [u32; 3] {
    [ONE_F32_BITS, TWO_F32_BITS, ONE_F32_BITS]
}

/// The default workspace: file browser and terminal shown, document
/// viewer hidden.
pub open spec fn default_workspace() -> WorkspaceConfigView {
    WorkspaceConfigView {
        id: "default"@,
        name: "Default"@,
        file_browser_visible: true,
        terminal_visible: true,
        document_viewer_visible: false,
        pane_ratios: default_ratios(),
    }
}

/// The debug workspace: terminal and document viewer shown.
pub open spec fn debug_workspace() -> WorkspaceConfigView {
    WorkspaceConfigView {
        id: "debug"@,
        name: "Debug"@,
        file_browser_visible: false,
        terminal_visible: true,
        document_viewer_visible: true,
        pane_ratios: default_ratios(),
    }
}

/// The default pane widths, 1 : 2 : 1.
pub fn default_pane_ratios() -> (r: [u32; 3])
    ensures
        r == default_ratios(),
{
    [ONE_F32_BITS, TWO_F32_BITS, ONE_F32_BITS]
}

impl Default for WorkspaceConfig {
    /// The default workspace: file browser and terminal shown, document
    /// viewer hidden, widths 1 : 2 : 1.
    fn default() -> (r: Self)
        ensures
            r@ == default_workspace(),
    {
        WorkspaceConfig {
            id: "default".to_owned(),
            name: "Default".to_owned(),
            file_browser_visible: true,
            terminal_visible: true,
            document_viewer_visible: false,
            pane_ratios: default_pane_ratios(),
        }
    }
}

/// All workspaces and the index of the active one.
#[derive(Clone, Debug)]
pub struct WorkspacesConfig {
    /// Index of the active workspace.
    pub active_workspace_index: usize,
    /// The workspaces, in tab order.
    pub workspaces: Vec<WorkspaceConfig>,
}

/// A workspaces configuration as plain values.
pub struct WorkspacesConfigView {
    pub active_workspace_index: usize,
    pub workspaces: Seq<WorkspaceConfigView>,
}

impl View for WorkspacesConfig {
    type V = WorkspacesConfigView;

    open spec fn view(&self) -> WorkspacesConfigView {
        WorkspacesConfigView {
            active_workspace_index: self.active_workspace_index,
            workspaces: self.workspaces@.map_values(|w: WorkspaceConfig| w@),
        }
    }
}

impl Default for WorkspacesConfig {
    /// The default and debug workspaces, the default one active.
    fn default() -> (r: Self)
        ensures
            r@.active_workspace_index == 0,
            r@.workspaces == seq![default_workspace(), debug_workspace()],
    {
        let mut workspaces: Vec<WorkspaceConfig> = Vec::new();
        workspaces.push(WorkspaceConfig::default());
        workspaces.push(
            WorkspaceConfig {
                id: "debug".to_owned(),
                name: "Debug".to_owned(),
                file_browser_visible: false,
                terminal_visible: true,
                document_viewer_visible: true,
                pane_ratios: default_pane_ratios(),
            },
        );
        let r = WorkspacesConfig { active_workspace_index: 0, workspaces };
        assert(r@.workspaces =~= seq![default_workspace(), debug_workspace()]);
        r
    }
}

/// A configuration is usable: at least one workspace, and the active index
/// points at one of them.
pub open spec fn config_valid(c: WorkspacesConfigView) -> bool {
    c.workspaces.len() > 0 && c.active_workspace_index < c.workspaces.len()
}

/// A configuration repaired after loading: a default workspace is added
/// when there is none, and an out-of-range active index is reset to 0.
pub open spec fn validated(c: WorkspacesConfigView) -> WorkspacesConfigView {
    let ws = if c.workspaces.len() == 0 {
        seq![default_workspace()]
    } else {
        c.workspaces
    };
    WorkspacesConfigView {
        active_workspace_index: if c.active_workspace_index >= ws.len() {
            0
        } else {
            c.active_workspace_index
        },
        workspaces: ws,
    }
}

/// Index of the workspace that counts as active: the active index when it
/// is in range, else the first workspace.
pub open spec fn effective_active_index(c: WorkspacesConfigView) -> int {
    if c.active_workspace_index < c.workspaces.len() {
        c.active_workspace_index as int
    } else {
        0
    }
}

/// A repaired configuration is usable, repairing it again changes
/// nothing, and a usable configuration is left as it is.
pub proof fn law_validation_repairs(c: WorkspacesConfigView)
    ensures
        config_valid(validated(c)),
        validated(validated(c)) == validated(c),
        config_valid(c) ==> validated(c) == c,
{
}

/// Validation keeps a non-empty workspace list as it is and keeps an
/// active index that names a workspace; an active index past the end is
/// reset to the first workspace, and an empty list becomes the single
/// default workspace, made active.
pub proof fn law_validation_resets_to_first(c: WorkspacesConfigView)
    ensures
        c.workspaces.len() > 0 ==> validated(c).workspaces == c.workspaces,
        c.workspaces.len() == 0 ==> validated(c).workspaces == seq![default_workspace()]
            && validated(c).active_workspace_index == 0,
        c.active_workspace_index < c.workspaces.len() ==> validated(c).active_workspace_index
            == c.active_workspace_index,
        c.active_workspace_index >= c.workspaces.len() ==> validated(c).active_workspace_index == 0,
        c.workspaces.len() > 0 ==> validated(c).workspaces[validated(c).active_workspace_index as int]
            == c.workspaces[effective_active_index(c)],
{
}

/// Switching to an existing workspace keeps the configuration usable and
/// makes that workspace the active one; switching to an index out of range
/// keeps the active workspace.
pub proof fn law_switch_selects(c: WorkspacesConfigView, index: usize)
    requires
        config_valid(c),
    ensures
        ({
            let switched = WorkspacesConfigView {
                active_workspace_index: if index < c.workspaces.len() {
                    index
                } else {
                    c.active_workspace_index
                },
                workspaces: c.workspaces,
            };
            &&& config_valid(switched)
            &&& index < c.workspaces.len() ==> effective_active_index(switched) == index
            &&& index >= c.workspaces.len() ==> effective_active_index(switched) == effective_active_index(c)
        }),
{
}

/// The workspace configuration together with the file it is saved to.
#[derive(Clone)]
pub struct WorkspaceConfigStore {
    config: WorkspacesConfig,
    config_path: String,
}

impl WorkspaceConfigStore {
    /// Configuration held by the store.
    pub closed spec fn current(&self) -> WorkspacesConfigView {
        self.config@
    }

    /// Path of the configuration file.
    pub closed spec fn path(&self) -> Seq<char> {
        self.config_path@
    }

    /// Repairs a configuration after loading: adds a default workspace
    /// when there is none, and resets an out-of-range active index to 0.
    pub fn validate_config(config: &mut WorkspacesConfig)
        ensures
            final(config)@ == validated(old(config)@),
    {
        if config.workspaces.len() == 0 {
            config.workspaces.push(WorkspaceConfig::default());
        }
        if config.active_workspace_index >= config.workspaces.len() {
            config.active_workspace_index = 0;
        }
        proof {
            let v = validated(old(config)@);
            if old(config)@.workspaces.len() == 0 {
                assert(config@.workspaces =~= seq![default_workspace()]);
            }
            assert(config@.workspaces =~= v.workspaces);
        }
    }

    /// A store for a loaded (or default) configuration saved to the given
    /// file; the configuration is repaired first.
    pub fn with_config(config: WorkspacesConfig, config_path: String) -> (r: Self)
        ensures
            r.current() == validated(config@),
            r.path() == config_path@,
    {
        let mut config = config;
        Self::validate_config(&mut config);
        WorkspaceConfigStore { config, config_path }
    }

    /// The configuration.
    pub fn config(&self) -> (r: &WorkspacesConfig)
        ensures
            r@ == self.current(),
    {
        &self.config
    }

    /// The configuration, for modification (save it afterwards).
    pub fn config_mut(&mut self) -> (r: &mut WorkspacesConfig)
        ensures
            r@ == old(self).current(),
            final(self).current() == final(r)@,
            final(self).path() == old(self).path(),
    {
        &mut self.config
    }

    /// The active workspace; the first one when the active index is out of
    /// range.
    pub fn active_workspace(&self) -> (r: &WorkspaceConfig)
        requires
            self.current().workspaces.len() > 0,
        ensures
            r@ == self.current().workspaces[effective_active_index(self.current())],
    {
        if self.config.active_workspace_index < self.config.workspaces.len() {
            &self.config.workspaces[self.config.active_workspace_index]
        } else {
            &self.config.workspaces[0]
        }
    }

    /// The active workspace, for modification; an out-of-range active index
    /// is reset to 0 first.
    pub fn active_workspace_mut(&mut self) -> (r: &mut WorkspaceConfig)
        requires
            old(self).current().workspaces.len() > 0,
        ensures
            r@ == old(self).current().workspaces[effective_active_index(old(self).current())],
            final(self).current().active_workspace_index == effective_active_index(old(self).current()),
            final(self).current().workspaces == old(self).current().workspaces.update(
                effective_active_index(old(self).current()),
                final(r)@,
            ),
            final(self).path() == old(self).path(),
    {
        if self.config.active_workspace_index >= self.config.workspaces.len() {
            self.config.active_workspace_index = 0;
        }
        let i = self.config.active_workspace_index;
        let r = &mut self.config.workspaces[i];
        r
    }

    /// Makes the workspace at `index` active; out-of-range indices are
    /// ignored.
    pub fn switch_workspace(&mut self, index: usize)
        ensures
            final(self).current().workspaces == old(self).current().workspaces,
            final(self).current().active_workspace_index == if index < old(self).current().workspaces.len() {
                index
            } else {
                old(self).current().active_workspace_index
            },
            final(self).path() == old(self).path(),
    {
        if index < self.config.workspaces.len() {
            self.config.active_workspace_index = index;
        }
    }

    /// Path of the configuration file.
    pub fn config_path(&self) -> (r: &String)
        ensures
            r@ == self.path(),
    {
        &self.config_path
    }
}

} // verus!
