//! Settings of the virtual workspaces and of the layouts.
use vstd::prelude::*;

verus! {

/// How the windows of a workspace are arranged.
#[derive(Clone, Copy, Debug, PartialEq, Eq, Structural)]
pub enum LayoutMode {
    Traditional,
    Bsp,
    Stack,
    MasterStack,
    Scrolling,
}

impl Default for LayoutMode {
    fn default() -> (r: Self)
        ensures
            r == LayoutMode::Traditional,
    {
        LayoutMode::Traditional
    }
}

/// Which way a stack of windows runs.
#[derive(Clone, Copy, Debug, PartialEq, Eq, Structural)]
pub enum StackOrientation {
    Perpendicular,
    Same,
    Horizontal,
    Vertical,
}

#[derive(Clone, Copy, Debug, PartialEq, Eq, Structural)]
pub struct StackSettings {
    pub default_orientation: StackOrientation,
}

/// Settings of the master-stack layout; the ratio is the bit pattern of a
/// double.
#[derive(Clone, Copy, Debug, PartialEq, Eq, Structural)]
pub struct MasterStackSettings {
    pub master_ratio: u64,
    pub master_count: usize,
}

/// Settings of the scrolling layout; the ratio is the bit pattern of a double.
#[derive(Clone, Copy, Debug, PartialEq, Eq, Structural)]
pub struct ScrollingSettings {
    pub column_width_ratio: u64,
}

#[derive(Clone, Copy, Debug, PartialEq, Eq, Structural)]
pub struct LayoutSettings {
    pub mode: LayoutMode,
    pub stack: StackSettings,
    pub master_stack: MasterStackSettings,
    pub scrolling: ScrollingSettings,
}

impl LayoutSettings {
    pub open spec fn standard() -> Self {
        LayoutSettings {
            mode: LayoutMode::Traditional,
            stack: StackSettings { default_orientation: StackOrientation::Perpendicular },
            // The doubles 0.6 and 0.7.
            master_stack: MasterStackSettings {
                master_ratio: 0x3FE3_3333_3333_3333,
                master_count: 1,
            },
            scrolling: ScrollingSettings { column_width_ratio: 0x3FE6_6666_6666_6666 },
        }
    }
}

impl Default for LayoutSettings {
    fn default() -> (r: Self)
        ensures
            r == LayoutSettings::standard(),
    {
        LayoutSettings {
            mode: LayoutMode::Traditional,
            stack: StackSettings { default_orientation: StackOrientation::Perpendicular },
            master_stack: MasterStackSettings {
                master_ratio: 0x3FE3_3333_3333_3333,
                master_count: 1,
            },
            scrolling: ScrollingSettings { column_width_ratio: 0x3FE6_6666_6666_6666 },
        }
    }
}

/// A workspace of a space, by position or by name.
#[derive(Debug)]
pub enum WorkspaceSelector {
    Index(usize),
    Name(String),
}

impl Clone for WorkspaceSelector {
    fn clone(&self) -> (r: Self)
        ensures
            r == *self,
    {
        match self {
            WorkspaceSelector::Index(index) => WorkspaceSelector::Index(*index),
            WorkspaceSelector::Name(name) => WorkspaceSelector::Name(name.clone()),
        }
    }
}

/// The layout mode of the workspaces that a selector picks.
#[derive(Debug)]
pub struct WorkspaceLayoutRule {
    pub workspace: WorkspaceSelector,
    pub layout: LayoutMode,
}

impl Clone for WorkspaceLayoutRule {
    fn clone(&self) -> (r: Self)
        ensures
            r == *self,
    {
        WorkspaceLayoutRule { workspace: self.workspace.clone(), layout: self.layout }
    }
}

/// What to do with the windows that meet every condition the rule gives.
#[derive(Debug)]
pub struct AppWorkspaceRule {
    pub app_id: Option<String>,
    pub workspace: Option<WorkspaceSelector>,
    pub floating: bool,
    pub manage: bool,
    pub app_name: Option<String>,
    pub title_regex: Option<String>,
    pub title_substring: Option<String>,
    pub ax_role: Option<String>,
    pub ax_subrole: Option<String>,
}

impl Clone for AppWorkspaceRule {
    fn clone(&self) -> (r: Self)
        ensures
            r == *self,
    {
        AppWorkspaceRule {
            app_id: self.app_id.clone(),
            workspace: self.workspace.clone(),
            floating: self.floating,
            manage: self.manage,
            app_name: self.app_name.clone(),
            title_regex: self.title_regex.clone(),
            title_substring: self.title_substring.clone(),
            ax_role: self.ax_role.clone(),
            ax_subrole: self.ax_subrole.clone(),
        }
    }
}

/// Settings of the virtual workspaces.
#[derive(Debug)]
pub struct VirtualWorkspaceSettings {
    pub default_workspace_count: usize,
    pub workspace_names: Vec<String>,
    pub default_workspace: usize,
    pub workspace_auto_back_and_forth: bool,
    pub app_rules: Vec<AppWorkspaceRule>,
    pub workspace_rules: Vec<WorkspaceLayoutRule>,
}

impl Default for VirtualWorkspaceSettings {
    fn default() -> (r: Self)
        ensures
            r.default_workspace_count == 4,
            r.workspace_names@ == Seq::<String>::empty(),
            r.default_workspace == 0,
            !r.workspace_auto_back_and_forth,
            r.app_rules@ == Seq::<AppWorkspaceRule>::empty(),
            r.workspace_rules@ == Seq::<WorkspaceLayoutRule>::empty(),
    {
        VirtualWorkspaceSettings {
            default_workspace_count: 4,
            workspace_names: Vec::new(),
            default_workspace: 0,
            workspace_auto_back_and_forth: false,
            app_rules: Vec::new(),
            workspace_rules: Vec::new(),
        }
    }
}

} // verus!
