//! The workspace manager.
use crate::config::{
    AppWorkspaceRule, LayoutMode, LayoutSettings, VirtualWorkspaceSettings, WorkspaceLayoutRule,
    WorkspaceSelector,
};
use crate::floating::FloatingTable;
use crate::id_map::{IdMap, IdSet};
use crate::ids::{SpaceId, WindowId};
use crate::lists::copy_list;
use crate::manager_state::{
    AppRuleAssignment, AppRuleResult, Direction, ManagerView, WorkspaceError, MAX_WORKSPACES,
};
use crate::rules::AppRuleSet;
use crate::slots::WorkspaceSlots;
use crate::text::decimal_text;
use crate::window::Frame;
use crate::window_registry::{
    WindowRecord, WindowRegistry, WindowRegistryHandle, WindowWorkspaceInfo,
};
use crate::workspace::{VirtualWorkspace, WorkspaceView};
use crate::workspace_id::VirtualWorkspaceId;
use vstd::prelude::*;

verus! {

broadcast use {
    crate::slots::lemma_views_insert,
    crate::slots::lemma_views_remove,
    crate::slots::lemma_views_dom,
};

/// The virtual workspaces of every native space, and the windows in them.
#[derive(Debug)]
pub struct VirtualWorkspaceManager {
    workspaces: WorkspaceSlots,
    workspaces_by_space: IdMap<SpaceId, Vec<VirtualWorkspaceId>>,
    pub active_workspace_per_space: IdMap<
        SpaceId,
        (Option<VirtualWorkspaceId>, VirtualWorkspaceId),
    >,
    floating_positions: FloatingTable,
    workspace_counter: usize,
    app_rules: AppRuleSet,
    default_workspace_count: usize,
    default_workspace_names: Vec<String>,
    default_workspace: usize,
    pub workspace_auto_back_and_forth: bool,
    pub workspace_rules: Vec<WorkspaceLayoutRule>,
    pub default_layout_mode: LayoutMode,
    pub layout_settings: LayoutSettings,
    window_registry: WindowRegistryHandle,
}

/// A window that is in more than one workspace.
#[derive(Debug)]
pub struct DuplicateMembership {
    pub window_id: WindowId,
    pub locations: Vec<(VirtualWorkspaceId, SpaceId)>,
    pub registry: Option<WindowWorkspaceInfo>,
}

/// Numbers of workspaces and windows.
#[derive(Debug)]
pub struct WorkspaceStats {
    pub total_workspaces: usize,
    pub total_windows: usize,
    pub active_spaces: usize,
    pub workspace_window_counts: Vec<(VirtualWorkspaceId, usize)>,
}

impl Clone for WorkspaceStats {
    fn clone(&self) -> (r: Self)
        ensures
            r.total_workspaces == self.total_workspaces,
            r.total_windows == self.total_windows,
            r.active_spaces == self.active_spaces,
            r.workspace_window_counts@ == self.workspace_window_counts@,
    {
        WorkspaceStats {
            total_workspaces: self.total_workspaces,
            total_windows: self.total_windows,
            active_spaces: self.active_spaces,
            workspace_window_counts: copy_list(&self.workspace_window_counts),
        }
    }
}

/// The lists of workspaces as sequences.
spec fn id_lists(lists: Map<SpaceId, Vec<VirtualWorkspaceId>>) -> Map<
    SpaceId,
    Seq<VirtualWorkspaceId>,
> {
    lists.map_values(|ids: Vec<VirtualWorkspaceId>| ids@)
}

impl View for VirtualWorkspaceManager {
    type V = ManagerView;

    closed spec fn view(&self) -> ManagerView {
        ManagerView {
            workspaces: self.workspaces@,
            by_space: id_lists(self.workspaces_by_space@),
            active: self.active_workspace_per_space@,
            floating: self.floating_positions@,
            counter: self.workspace_counter as nat,
            rules: self.app_rules@,
            default_count: self.default_workspace_count as nat,
            default_names: crate::manager_state::text_views(self.default_workspace_names@),
            default_workspace: self.default_workspace as nat,
            auto_back_and_forth: self.workspace_auto_back_and_forth,
            workspace_rules: self.workspace_rules@,
            default_mode: self.default_layout_mode,
            layout_settings: self.layout_settings,
            registry: self.window_registry@,
        }
    }
}

impl Default for VirtualWorkspaceManager {
    fn default() -> (r: Self)
        ensures
            exists|settings: VirtualWorkspaceSettings|
                crate::manager_state::are_standard(settings) && r@
                    == #[trigger] ManagerView::with_config(settings, LayoutSettings::standard()),
    {
        Self::new()
    }
}

fn numbered(n: usize) -> (r: String)
    ensures
        r@ == crate::manager_state::numbered_name(n as nat),
{
    let mut name = "Workspace ".to_owned();
    name.append(decimal_text(n as u64).as_str());
    name
}

/// How many workspaces a space starts with, for a configured count.
fn held_count(configured: usize) -> (r: usize)
    ensures
        r == crate::manager_state::start_count(configured as nat),
        1 <= r <= MAX_WORKSPACES,
{
    if configured < 1 {
        1
    } else if configured > MAX_WORKSPACES {
        MAX_WORKSPACES
    } else {
        configured
    }
}

impl VirtualWorkspaceManager {
    /// The layout that the rules for workspaces give; the last one that selects
    /// the workspace wins.
    fn resolve_layout_mode_for_workspace(&self, index: usize, name: &str) -> (r: LayoutMode)
        ensures
            r == self@.mode_for(index as nat, name@),
    {
        let mut n: usize = self.workspace_rules.len();
        assert(self.workspace_rules@.take(n as int) =~= self.workspace_rules@);
        while n > 0
            invariant
                n <= self.workspace_rules@.len(),
                self@.mode_for(index as nat, name@) == crate::manager_state::mode_by_rules(
                    self.workspace_rules@.take(n as int),
                    self.default_layout_mode,
                    index as nat,
                    name@,
                ),
            decreases n,
        {
            let rule = &self.workspace_rules[n - 1];
            assert(self.workspace_rules@.take(n as int).drop_last() =~= self.workspace_rules@.take(
                n - 1,
            ));
            let selected = match &rule.workspace {
                WorkspaceSelector::Index(i) => *i == index,
                WorkspaceSelector::Name(n) => crate::text::text_eq(n.as_str(), name),
            };
            if selected {
                return rule.layout;
            }
            n = n - 1;
        }
        self.default_layout_mode
    }

    pub fn desired_layout_mode_for_workspace(&self, index: usize, name: &str) -> (r: LayoutMode)
        ensures
            r == self@.mode_for(index as nat, name@),
    {
        self.resolve_layout_mode_for_workspace(index, name)
    }

    /// `space` has its workspaces, or there is room for them.
    pub fn has_room(&self, space: SpaceId) -> (r: bool)
        ensures
            r == self@.has_room(space),
    {
        self.workspaces_by_space.contains_key(space) || self.workspaces.len()
            <= crate::slots::SLOT_LIMIT - MAX_WORKSPACES
    }

    /// There is room for `n` more workspaces, and there are numbers to name them.
    pub fn has_spare_room(&self, n: usize) -> (r: bool)
        ensures
            r == self@.has_spare_room(n as nat),
    {
        let taken: usize = self.workspaces.len();
        n <= crate::slots::SLOT_LIMIT - taken && n <= usize::MAX - self.workspace_counter
    }

    /// Gives `space` its workspaces, where it has none yet.
    fn ensure_space_initialized(&mut self, space: SpaceId)
        requires
            old(self)@.has_room(space),
        ensures
            old(self)@.starts_space(final(self)@, space),
            final(self)@.workspaces.len() == old(self)@.workspaces.len() + (if old(
                self,
            )@.by_space.contains_key(space) {
                0
            } else {
                crate::manager_state::start_count(old(self)@.default_count)
            }),
    {
        if self.workspaces_by_space.contains_key(space) {
            return;
        }
        let count: usize = held_count(self.default_workspace_count);
        let mut ids: Vec<VirtualWorkspaceId> = Vec::new();
        let ghost start = self@;
        for i in 0..count
            invariant
                count <= MAX_WORKSPACES,
                start == old(self)@,
                start.workspaces.len() + MAX_WORKSPACES <= crate::slots::SLOT_LIMIT,
                ids@.len() == i,
                start.are_free(ids@),
                self@.workspaces.len() == start.workspaces.len() + i,
                self@ == (ManagerView {
                    workspaces: start.with_start_workspaces(space, ids@),
                    ..start
                }),
                forall|id: VirtualWorkspaceId| #[trigger]
                    self@.workspaces.contains_key(id) <==> start.workspaces.contains_key(id)
                        || ids@.contains(id),
        {
            let name = if i < self.default_workspace_names.len() {
                self.default_workspace_names[i].clone()
            } else {
                numbered(i + 1)
            };
            let mode = self.resolve_layout_mode_for_workspace(i, name.as_str());
            let ws = VirtualWorkspace::new(name, space, mode, &self.layout_settings);
            let ghost before = ids@;
            let id = self.workspaces.insert(ws);
            ids.push(id);
            proof {
                crate::id_map::lemma_contains_push(before, id);
                assert(ids@.drop_last() =~= before);
            }
        }
        let last: usize = ids.len() - 1;
        let default_idx: usize = if self.default_workspace < last {
            self.default_workspace
        } else {
            last
        };
        self.active_workspace_per_space.insert(space, (None, ids[default_idx]));
        let ghost listed = ids@;
        self.workspaces_by_space.insert(space, ids);
        assert(self@ =~= start.with_space(space, listed));
    }

    pub fn new() -> (r: Self)
        ensures
            exists|settings: VirtualWorkspaceSettings|
                crate::manager_state::are_standard(settings) && r@ == #[trigger] ManagerView::with_config(
                    settings,
                    LayoutSettings::standard(),
                ),
    {
        let settings: VirtualWorkspaceSettings = Default::default();
        let layout: LayoutSettings = Default::default();
        Self::new_with_config(&settings, &layout)
    }

    pub fn new_with_rules(app_rules: Vec<AppWorkspaceRule>, layout_settings: LayoutSettings) -> (r:
        Self)
        ensures
            exists|settings: VirtualWorkspaceSettings|
                crate::manager_state::are_standard(settings) && r@ == (ManagerView {
                    rules: app_rules@,
                    ..#[trigger] ManagerView::with_config(settings, layout_settings)
                }),
    {
        let mut settings: VirtualWorkspaceSettings = Default::default();
        let ghost standard = settings;
        settings.app_rules = app_rules;
        let r = Self::new_with_config(&settings, &layout_settings);
        assert(r@ =~= ManagerView {
            rules: app_rules@,
            ..ManagerView::with_config(standard, layout_settings)
        });
        r
    }

    pub fn new_with_config(
        config: &VirtualWorkspaceSettings,
        layout_settings: &LayoutSettings,
    ) -> (r: Self)
        ensures
            r@ == ManagerView::with_config(*config, *layout_settings),
    {
        let target_count: usize = held_count(config.default_workspace_count);
        let default_workspace: usize = if config.default_workspace < target_count - 1 {
            config.default_workspace
        } else {
            target_count - 1
        };
        let mut window_registry = WindowRegistryHandle::new();
        window_registry.attach(Default::default());
        let app_rules = config.app_rules.clone();
        let names = config.workspace_names.clone();
        let workspace_rules = config.workspace_rules.clone();
        proof {
            assert(app_rules@ =~= config.app_rules@);
            assert(names@ =~= config.workspace_names@);
            assert(workspace_rules@ =~= config.workspace_rules@);
        }
        let manager = VirtualWorkspaceManager {
            workspaces: WorkspaceSlots::new(),
            workspaces_by_space: IdMap::new(),
            active_workspace_per_space: IdMap::new(),
            floating_positions: FloatingTable::new(),
            workspace_counter: 1,
            app_rules: AppRuleSet::new(app_rules),
            default_workspace_count: config.default_workspace_count,
            default_workspace_names: names,
            default_workspace,
            workspace_auto_back_and_forth: config.workspace_auto_back_and_forth,
            workspace_rules,
            default_layout_mode: layout_settings.mode,
            layout_settings: *layout_settings,
            window_registry,
        };
        assert(manager@ =~= ManagerView::with_config(*config, *layout_settings));
        manager
    }

    pub fn window_registry(&self) -> (r: &WindowRegistryHandle)
        ensures
            r@ == self@.registry,
    {
        &self.window_registry
    }

    /// The registry, to change in place.
    pub fn window_registry_mut(&mut self) -> (r: &mut WindowRegistryHandle)
        ensures
            r@ == old(self)@.registry,
            final(self)@ == (ManagerView { registry: final(r)@, ..old(self)@ }),
    {
        &mut self.window_registry
    }

    pub fn attach_window_registry(&mut self, registry: WindowRegistry)
        ensures
            final(self)@ == old(self)@.with_registry(registry@),
    {
        self.window_registry.attach(registry);
    }

    /// The spaces that have workspaces, each once, in no particular order.
    pub fn initialized_spaces(&self) -> (r: Vec<SpaceId>)
        ensures
            r@.no_duplicates(),
            r@.to_set() == self@.by_space.dom(),
    {
        let r = self.workspaces_by_space.keys();
        assert(self@.by_space.dom() =~= self.workspaces_by_space@.dom());
        r
    }

    /// The workspaces of `space`, in order.
    pub fn workspace_ids(&self, space: SpaceId) -> (r: Vec<VirtualWorkspaceId>)
        ensures
            r@ == self@.ids_of(space),
    {
        match self.workspaces_by_space.get(space) {
            Some(ids) => copy_list(ids),
            None => Vec::new(),
        }
    }

    pub fn last_workspace(&self, space: SpaceId) -> (r: Option<VirtualWorkspaceId>)
        ensures
            r == self@.last_in(space),
    {
        match self.active_workspace_per_space.get(space) {
            Some(pair) => pair.0,
            None => None,
        }
    }

    pub fn active_workspace(&self, space: SpaceId) -> (r: Option<VirtualWorkspaceId>)
        ensures
            r == self@.active_in(space),
    {
        match self.active_workspace_per_space.get(space) {
            Some(pair) => Some(pair.1),
            None => None,
        }
    }

    /// The position of the active workspace among those of its space.
    pub fn active_workspace_idx(&self, space: SpaceId) -> (r: Option<u64>)
        ensures
            match (self@.active_in(space), r) {
                (Some(id), Some(i)) => crate::manager_state::first_at(
                    self@.ids_of(space),
                    id,
                    i as int,
                ),
                (Some(id), None) => !self@.ids_of(space).contains(id),
                (None, _) => r is None,
            },
    {
        match self.active_workspace(space) {
            Some(id) => match self.workspaces_by_space.get(space) {
                Some(ids) => match position(ids, id) {
                    Some(i) => Some(i as u64),
                    None => None,
                },
                None => None,
            },
            None => None,
        }
    }

    pub fn workspace_auto_back_and_forth(&self) -> (r: bool)
        ensures
            r == self@.auto_back_and_forth,
    {
        self.workspace_auto_back_and_forth
    }

    fn belongs(&self, workspace_id: VirtualWorkspaceId, space: SpaceId) -> (r: bool)
        ensures
            r == self@.belongs(workspace_id, space),
    {
        match self.workspaces.get(workspace_id) {
            Some(workspace) => workspace.space() == space,
            None => false,
        }
    }

    /// Makes the workspace the active one of `space`; false, and nothing
    /// changes, where it is not one of that space.
    pub fn set_active_workspace(&mut self, space: SpaceId, workspace_id: VirtualWorkspaceId) -> (r:
        bool)
        ensures
            r == old(self)@.belongs(workspace_id, space),
            final(self)@ == (if r {
                old(self)@.with_active(space, workspace_id)
            } else {
                old(self)@
            }),
    {
        let active = self.active_workspace(space);
        if self.workspaces.contains_key(workspace_id) && self.belongs(workspace_id, space) {
            self.active_workspace_per_space.insert(space, (active, workspace_id));
            true
        } else {
            false
        }
    }

    /// Creates a workspace at the end of those of `space`, which gets its
    /// workspaces first where it has none. A space takes no more than
    /// `MAX_WORKSPACES`.
    pub fn create_workspace(&mut self, space: SpaceId, name: Option<String>) -> (r: Result<
        VirtualWorkspaceId,
        WorkspaceError,
    >)
        requires
            old(self)@.has_spare_room(MAX_WORKSPACES as nat),
        ensures
            exists|mid: ManagerView|
                #![trigger old(self)@.starts_space(mid, space)]
                old(self)@.starts_space(mid, space) && match r {
                    Ok(id) => mid.ids_of(space).len() < MAX_WORKSPACES
                        && !mid.workspaces.contains_key(id) && final(self)@
                        == mid.with_created(
                        space,
                        id,
                        crate::manager_state::name_view(name),
                    ),
                    Err(e) => mid.ids_of(space).len() >= MAX_WORKSPACES && final(self)@ == mid
                        && e@ == crate::manager_state::limit_reached(space),
                },
    {
        self.ensure_space_initialized(space);
        let ghost mid = self@;
        let count: usize = match self.workspaces_by_space.get(space) {
            Some(ids) => ids.len(),
            None => 0,
        };
        if count >= MAX_WORKSPACES {
            let mut text = "Maximum workspace limit (".to_owned();
            text.append(decimal_text(MAX_WORKSPACES as u64).as_str());
            text.append(") reached for space SpaceId(");
            text.append(decimal_text(space.get()).as_str());
            text.append(")");
            return Err(WorkspaceError::InconsistentState(text));
        }
        let ghost given_text = crate::manager_state::name_view(name);
        let given = match name {
            Some(text) => text,
            None => {
                let text = numbered(self.workspace_counter);
                self.workspace_counter = self.workspace_counter + 1;
                text
            },
        };
        let mode = self.resolve_layout_mode_for_workspace(count, given.as_str());
        let workspace = VirtualWorkspace::new(given, space, mode, &self.layout_settings);
        let workspace_id = self.workspaces.insert(workspace);
        let ids = self.workspaces_by_space.get_or_insert(space, Vec::new());
        ids.push(workspace_id);
        assert(self@ =~= mid.with_created(space, workspace_id, given_text));
        Ok(workspace_id)
    }

    /// Moves the window into a workspace of `space`; false, and nothing
    /// changes, where the workspace is not one of that space.
    pub fn assign_window_to_workspace(
        &mut self,
        space: SpaceId,
        window_id: WindowId,
        workspace_id: VirtualWorkspaceId,
    ) -> (r: bool)
        requires
            old(self)@.registry is Some,
        ensures
            r == old(self)@.belongs(workspace_id, space),
            final(self)@ == old(self)@.assign(space, window_id, workspace_id),
    {
        if !self.workspaces.contains_key(workspace_id) || !self.belongs(workspace_id, space) {
            return false;
        }
        let existing_mapping = self.window_registry.get().workspace_info_for_window(window_id);
        if let Some(info) = existing_mapping {
            if let Some(old_workspace) = self.workspaces.get_mut(info.workspace_id) {
                old_workspace.remove_window(window_id);
            }
        }
        proof {
            let out = match existing_mapping {
                Some(info) => old(self)@.without_member(info.workspace_id, window_id),
                None => old(self)@,
            };
            assert(self@ =~= out);
        }
        if let Some(workspace) = self.workspaces.get_mut(workspace_id) {
            workspace.add_window(window_id);
        }
        self.window_registry.get_mut().assign_window_to_workspace(
            window_id,
            WindowWorkspaceInfo { space, workspace_id },
        );
        assert(self@ =~= old(self)@.with_assignment(space, window_id, workspace_id));
        true
    }

    /// The workspaces of `space`, which gets its workspaces first where it has
    /// none, with their names.
    pub fn list_workspaces(&mut self, space: SpaceId) -> (r: Vec<(VirtualWorkspaceId, String)>)
        requires
            old(self)@.has_room(space),
        ensures
            old(self)@.starts_space(final(self)@, space),
            final(self)@.lists(space, r@),
    {
        self.ensure_space_initialized(space);
        self.named_workspaces(space)
    }

    fn named_workspaces(&self, space: SpaceId) -> (r: Vec<(VirtualWorkspaceId, String)>)
        ensures
            self@.lists(space, r@),
    {
        let mut r: Vec<(VirtualWorkspaceId, String)> = Vec::new();
        let ghost exists_here = |id: VirtualWorkspaceId| self@.workspaces.contains_key(id);
        assert(self@.listed(space) =~= self@.ids_of(space).filter(exists_here));
        if let Some(ids) = self.workspaces_by_space.get(space) {
            assert(ids@.take(0).filter(exists_here) =~= Seq::empty()) by {
                reveal(Seq::filter);
            }
            for i in 0..ids.len()
                invariant
                    exists_here == (|id: VirtualWorkspaceId| self@.workspaces.contains_key(id)),
                    r@.map_values(|entry: (VirtualWorkspaceId, String)| entry.0) =~= ids@.take(
                        i as int,
                    ).filter(exists_here),
                    forall|j: int|
                        0 <= j < r@.len() ==> (#[trigger] r@[j]).1@ == self@.workspaces[r@[j].0].name,
            {
                proof {
                    crate::id_map::lemma_filter_take(ids@, exists_here, i as int);
                }
                let ghost before = r@;
                if let Some(workspace) = self.workspaces.get(ids[i]) {
                    r.push((ids[i], workspace.name().to_owned()));
                    assert(r@.map_values(|entry: (VirtualWorkspaceId, String)| entry.0)
                        =~= before.map_values(
                        |entry: (VirtualWorkspaceId, String)| entry.0,
                    ).push(ids@[i as int]));
                }
            }
            assert(ids@.take(ids@.len() as int) =~= ids@);
            assert(ids@ == self@.ids_of(space));
        } else {
            assert(self@.listed(space) =~= Seq::empty()) by {
                reveal(Seq::filter);
            }
        }
        assert(r@.map_values(|entry: (VirtualWorkspaceId, String)| entry.0) =~= self@.listed(space));
        r
    }

    /// The workspace that windows of `space` go to.
    fn get_default_workspace(&mut self, space: SpaceId) -> (r: Result<
        VirtualWorkspaceId,
        WorkspaceError,
    >)
        requires
            old(self)@.has_room(space),
        ensures
            exists|mid: ManagerView|
                #![trigger old(self)@.starts_space(mid, space)]
                old(self)@.starts_space(mid, space) && (
                    final(self)@,
                    crate::manager_state::outcome(r),
                ) == mid.default_choice(space),
    {
        self.ensure_space_initialized(space);
        let ghost mid = self@;
        if let Some(active_workspace_id) = self.active_workspace(space) {
            if self.workspaces.contains_key(active_workspace_id) {
                return Ok(active_workspace_id);
            } else {
                self.active_workspace_per_space.remove(space);
            }
        }
        assert(self@ =~= ManagerView { active: mid.active.remove(space), ..mid });
        let first_id = match self.workspaces_by_space.get(space) {
            Some(ids) => {
                if ids.len() > 0 {
                    Some(ids[0])
                } else {
                    None
                }
            },
            None => None,
        };
        match first_id {
            Some(id) => {
                if self.set_active_workspace(space, id) {
                    Ok(id)
                } else {
                    Err(
                        WorkspaceError::InconsistentState(
                            "Failed to set default workspace as active".to_owned(),
                        ),
                    )
                }
            },
            None => Err(
                WorkspaceError::InconsistentState("No workspaces for space".to_owned()),
            ),
        }
    }

    /// Assigns the window to the default workspace of `space`.
    pub fn auto_assign_window(&mut self, window_id: WindowId, space: SpaceId) -> (r: Result<
        VirtualWorkspaceId,
        WorkspaceError,
    >)
        requires
            old(self)@.has_room(space),
            old(self)@.registry is Some,
        ensures
            exists|mid: ManagerView|
                #![trigger old(self)@.starts_space(mid, space)]
                old(self)@.starts_space(mid, space) && (
                    final(self)@,
                    crate::manager_state::outcome(r),
                ) == mid.assigned_by_default(window_id, space),
    {
        match self.get_default_workspace(space) {
            Ok(id) => {
                let ghost next = self@;
                if self.assign_window_to_workspace(space, window_id, id) {
                    self.window_registry.get_mut().clear_rule_floating(window_id);
                    assert(self@ =~= next.with_assignment(
                        space,
                        window_id,
                        id,
                    ).with_rule_floating(window_id, false));
                    Ok(id)
                } else {
                    Err(WorkspaceError::AssignmentFailed)
                }
            },
            Err(e) => Err(e),
        }
    }

    /// The position of the first workspace of `space` of that name.
    fn position_of_name(&self, space: SpaceId, name: &str) -> (r: Option<usize>)
        ensures
            match r {
                Some(i) => self@.position_of_name(space, name@) == Some(i as nat),
                None => self@.position_of_name(space, name@) is None,
            },
    {
        let workspaces = self.named_workspaces(space);
        let ghost list = self@.listed(space);
        for i in 0..workspaces.len()
            invariant
                list == self@.listed(space),
                self@.lists(space, workspaces@),
                forall|k: int| 0 <= k < i ==> self@.workspaces[#[trigger] list[k]].name != name@,
        {
            let ghost ids = workspaces@.map_values(|entry: (VirtualWorkspaceId, String)| entry.0);
            assert(ids[i as int] == list[i as int]);
            if crate::text::text_eq(workspaces[i].1.as_str(), name) {
                proof {
                    assert(self@.first_named(list, name@, i as int));
                    let j = choose|j: int| #[trigger] self@.first_named(list, name@, j);
                    if j < i {
                        assert(self@.workspaces[list[j]].name != name@);
                    }
                }
                return Some(i);
            }
        }
        proof {
            assert(workspaces@.map_values(|entry: (VirtualWorkspaceId, String)| entry.0).len()
                == workspaces@.len());
        }
        None
    }

    /// The workspace that a rule sends a window to.
    fn rule_target(
        &mut self,
        space: SpaceId,
        rule: &AppWorkspaceRule,
        existing: Option<VirtualWorkspaceId>,
    ) -> (r: Result<VirtualWorkspaceId, WorkspaceError>)
        requires
            old(self)@.by_space.contains_key(space),
        ensures
            (final(self)@, crate::manager_state::outcome(r)) == old(self)@.rule_target(
                space,
                *rule,
                existing,
            ),
    {
        let maybe_idx: Option<usize> = match &rule.workspace {
            Some(WorkspaceSelector::Index(i)) => Some(*i),
            Some(WorkspaceSelector::Name(name)) => self.position_of_name(space, name.as_str()),
            None => None,
        };
        match maybe_idx {
            Some(workspace_idx) => {
                let len: usize = match self.workspaces_by_space.get(space) {
                    Some(ids) => ids.len(),
                    None => 0,
                };
                if workspace_idx >= len {
                    self.get_default_workspace(space)
                } else {
                    let workspaces = self.named_workspaces(space);
                    proof {
                        let ids = workspaces@.map_values(
                            |entry: (VirtualWorkspaceId, String)| entry.0,
                        );
                        assert(ids.len() == workspaces@.len());
                        if workspace_idx < workspaces@.len() {
                            assert(ids[workspace_idx as int] == workspaces@[workspace_idx as int].0);
                        }
                    }
                    if workspace_idx < workspaces.len() {
                        Ok(workspaces[workspace_idx].0)
                    } else {
                        self.get_default_workspace(space)
                    }
                }
            },
            None => match existing {
                Some(id) => Ok(id),
                None => self.get_default_workspace(space),
            },
        }
    }

    /// The app rule that applies to a window.
    fn find_matching_app_rule(
        &self,
        app_bundle_id: Option<&str>,
        app_name: Option<&str>,
        window_title: Option<&str>,
        ax_role: Option<&str>,
        ax_subrole: Option<&str>,
    ) -> (r: Option<&AppWorkspaceRule>)
        ensures
            match r {
                Some(rule) => crate::rules::rule_for(
                    self@.rules,
                    crate::rules::window_traits(
                        app_bundle_id,
                        app_name,
                        window_title,
                        ax_role,
                        ax_subrole,
                    ),
                ) == Some(*rule),
                None => crate::rules::rule_for(
                    self@.rules,
                    crate::rules::window_traits(
                        app_bundle_id,
                        app_name,
                        window_title,
                        ax_role,
                        ax_subrole,
                    ),
                ) is None,
            },
    {
        self.app_rules.find_matching_app_rule(
            app_bundle_id,
            app_name,
            window_title,
            ax_role,
            ax_subrole,
        )
    }

    /// Finds the app rule for a window and puts the window where it says.
    pub fn assign_window_with_app_info(
        &mut self,
        window_id: WindowId,
        space: SpaceId,
        app_bundle_id: Option<&str>,
        app_name: Option<&str>,
        window_title: Option<&str>,
        ax_role: Option<&str>,
        ax_subrole: Option<&str>,
    ) -> (r: Result<AppRuleResult, WorkspaceError>)
        requires
            old(self)@.has_room(space),
            old(self)@.registry is Some,
        ensures
            exists|mid: ManagerView|
                #![trigger old(self)@.starts_space(mid, space)]
                old(self)@.starts_space(mid, space) && (
                    final(self)@,
                    crate::manager_state::outcome(r),
                ) == mid.assigned_by_rule(
                    window_id,
                    space,
                    crate::rules::rule_for(
                        old(self)@.rules,
                        crate::rules::window_traits(
                            app_bundle_id,
                            app_name,
                            window_title,
                            ax_role,
                            ax_subrole,
                        ),
                    ),
                ),
    {
        self.ensure_space_initialized(space);
        let rule_match = match self.find_matching_app_rule(
            app_bundle_id,
            app_name,
            window_title,
            ax_role,
            ax_subrole,
        ) {
            Some(rule) => Some(rule.clone()),
            None => None,
        };
        self.assign_window_by_rule(window_id, space, rule_match)
    }

    /// Puts a window of `space` where the rule that applies to it says.
    pub fn assign_window_by_rule(
        &mut self,
        window_id: WindowId,
        space: SpaceId,
        rule_match: Option<AppWorkspaceRule>,
    ) -> (r: Result<AppRuleResult, WorkspaceError>)
        requires
            old(self)@.by_space.contains_key(space),
            old(self)@.registry is Some,
        ensures
            (final(self)@, crate::manager_state::outcome(r)) == old(self)@.assigned_by_rule(
                window_id,
                space,
                rule_match,
            ),
    {
        let prev_rule_decision = self.window_registry.get().last_rule_decision(window_id);
        let no_workspaces = match self.workspaces_by_space.get(space) {
            Some(ids) => ids.len() == 0,
            None => true,
        };
        if no_workspaces {
            return Err(WorkspaceError::NoWorkspacesAvailable);
        }
        let existing_assignment = self.window_registry.get().workspace_for_window(space, window_id);
        if let Some(rule) = rule_match {
            if !rule.manage {
                self.window_registry.get_mut().clear_rule_floating(window_id);
                assert(self@ =~= old(self)@.with_rule_floating(window_id, false));
                return Ok(AppRuleResult::Unmanaged);
            }
            let target_workspace_id = match self.rule_target(space, &rule, existing_assignment) {
                Ok(id) => id,
                Err(e) => return Err(e),
            };
            let ghost next = self@;
            if let Some(existing_ws) = existing_assignment {
                self.window_registry.get_mut().set_rule_floating(window_id, rule.floating);
                assert(self@ =~= next.with_rule_floating(window_id, rule.floating));
                return Ok(
                    AppRuleResult::Managed(
                        AppRuleAssignment {
                            workspace_id: existing_ws,
                            floating: rule.floating,
                            prev_rule_decision,
                        },
                    ),
                );
            }
            if self.assign_window_to_workspace(space, window_id, target_workspace_id) {
                self.window_registry.get_mut().set_rule_floating(window_id, rule.floating);
                assert(self@ =~= next.with_assignment(
                    space,
                    window_id,
                    target_workspace_id,
                ).with_rule_floating(window_id, rule.floating));
                return Ok(
                    AppRuleResult::Managed(
                        AppRuleAssignment {
                            workspace_id: target_workspace_id,
                            floating: rule.floating,
                            prev_rule_decision,
                        },
                    ),
                );
            }
        }
        let ghost here = self@;
        if let Some(existing_ws) = existing_assignment {
            self.window_registry.get_mut().clear_rule_floating(window_id);
            assert(self@ =~= here.with_rule_floating(window_id, false));
            return Ok(
                AppRuleResult::Managed(
                    AppRuleAssignment {
                        workspace_id: existing_ws,
                        floating: false,
                        prev_rule_decision,
                    },
                ),
            );
        }
        match self.auto_assign_window(window_id, space) {
            Ok(workspace_id) => Ok(
                AppRuleResult::Managed(
                    AppRuleAssignment { workspace_id, floating: false, prev_rule_decision },
                ),
            ),
            Err(e) => Err(e),
        }
    }

    pub fn workspace_for_window(&self, space: SpaceId, window_id: WindowId) -> (r: Option<
        VirtualWorkspaceId,
    >)
        requires
            self@.registry is Some,
        ensures
            r == self@.records().workspace_in(space, window_id),
    {
        self.window_registry.get().workspace_for_window(space, window_id)
    }

    pub fn workspace_for_window_any(&self, window_id: WindowId) -> (r: Option<VirtualWorkspaceId>)
        requires
            self@.registry is Some,
        ensures
            r == match self@.records().workspace_of(window_id) {
                Some(info) => Some(info.workspace_id),
                None => None,
            },
    {
        match self.window_registry.get().workspace_info_for_window(window_id) {
            Some(info) => Some(info.workspace_id),
            None => None,
        }
    }

    pub fn workspace_info_for_window_any(&self, window_id: WindowId) -> (r: Option<
        WindowWorkspaceInfo,
    >)
        requires
            self@.registry is Some,
        ensures
            r == self@.records().workspace_of(window_id),
    {
        self.window_registry.get().workspace_info_for_window(window_id)
    }

    pub fn workspaces_for_window(&self, window_id: WindowId) -> (r: Vec<VirtualWorkspaceId>)
        requires
            self@.registry is Some,
        ensures
            r@ == match self@.records().workspace_of(window_id) {
                Some(info) => seq![info.workspace_id],
                None => Seq::empty(),
            },
    {
        self.window_registry.get().workspaces_for_window(window_id)
    }

    pub fn set_last_rule_decision(&mut self, _space: SpaceId, window_id: WindowId, value: bool)
        requires
            old(self)@.registry is Some,
        ensures
            final(self)@ == old(self)@.with_registry(
                old(self)@.records().put_window(
                    window_id,
                    (WindowRecord {
                        last_rule_decision: value,
                        ..old(self)@.records().window(window_id)
                    }),
                ),
            ),
    {
        self.window_registry.get_mut().set_last_rule_decision(window_id, value);
    }

    /// Takes the window out of the workspace that it is assigned to, or, where
    /// it is assigned to none, out of every workspace that still holds it.
    pub fn remove_window(&mut self, window_id: WindowId)
        requires
            old(self)@.registry is Some,
        ensures
            final(self)@ == old(self)@.without_window(window_id),
    {
        let assignment = self.window_registry.get_mut().remove_window_assignment(window_id);
        let ghost records = old(self)@.records();
        if let Some(assignment) = assignment {
            if let Some(workspace) = self.workspaces.get_mut(assignment.workspace_id) {
                workspace.remove_window(window_id);
            }
        } else {
            let ids = self.workspaces.keys();
            for i in 0..ids.len()
                invariant
                    ids@.no_duplicates(),
                    ids@.to_set() == old(self)@.workspaces.dom(),
                    self@ == (ManagerView {
                        workspaces: self@.workspaces,
                        registry: self@.registry,
                        ..old(self)@
                    }),
                    self@.registry == Some(
                        records.settle_window(
                            window_id,
                            (WindowRecord { workspace: None, ..records.window(window_id) }),
                        ),
                    ),
                    self@.workspaces.dom() == old(self)@.workspaces.dom(),
                    forall|id: VirtualWorkspaceId| #[trigger]
                        self@.workspaces.contains_key(id) ==> self@.workspaces[id] == if ids@.take(
                            i as int,
                        ).contains(id) {
                            old(self)@.workspaces[id].without_window(window_id)
                        } else {
                            old(self)@.workspaces[id]
                        },
            {
                proof {
                    assert(ids@.to_set().contains(ids@[i as int]));
                    assert(ids@.take(i + 1) =~= ids@.take(i as int).push(ids@[i as int]));
                    crate::id_map::lemma_contains_push(ids@.take(i as int), ids@[i as int]);
                    assert(!ids@.take(i as int).contains(ids@[i as int]));
                }
                if let Some(workspace) = self.workspaces.get_mut(ids[i]) {
                    workspace.remove_window(window_id);
                }
                assert(self@.workspaces.dom() =~= old(self)@.workspaces.dom());
            }
            proof {
                assert(ids@.take(ids@.len() as int) =~= ids@);
                assert forall|id: VirtualWorkspaceId|
                    ids@.contains(id) == old(self)@.workspaces.contains_key(id) by {
                    assert(ids@.to_set().contains(id) == ids@.contains(id));
                }
                assert(self@.workspaces =~= old(self)@.workspaces.map_values(
                    |w: WorkspaceView| w.without_window(window_id),
                ));
            }
        }
        self.window_registry.get_mut().clear_rule_metadata(window_id);
        proof {
            assert(self@.records() =~= ManagerView::released(records, window_id));
            assert(self@ =~= old(self)@.without_window(window_id));
        }
    }

    /// Takes the windows of a process out of the workspaces that they are
    /// assigned to.
    pub fn remove_windows_for_app(&mut self, pid: i32)
        requires
            old(self)@.registry is Some,
        ensures
            exists|windows: Seq<WindowId>|
                windows.no_duplicates() && windows.to_set() == old(self)@.records().assigned().filter(
                    |w: WindowId| w.pid == pid,
                ) && final(self)@ == #[trigger] old(self)@.without_windows(windows),
    {
        let assigned = self.window_registry.get().assigned_window_ids();
        let mut windows: Vec<WindowId> = Vec::new();
        for i in 0..assigned.len()
            invariant
                assigned@.no_duplicates(),
                windows@.no_duplicates(),
                forall|w: WindowId| #[trigger]
                    windows@.contains(w) <==> assigned@.take(i as int).contains(w) && w.pid == pid,
        {
            proof {
                assert(assigned@.take(i + 1) =~= assigned@.take(i as int).push(assigned@[i as int]));
                crate::id_map::lemma_contains_push(assigned@.take(i as int), assigned@[i as int]);
                crate::id_map::lemma_contains_push(windows@, assigned@[i as int]);
                assert(!assigned@.take(i as int).contains(assigned@[i as int]));
                assert(!windows@.contains(assigned@[i as int]));
            }
            if assigned[i].pid == pid {
                windows.push(assigned[i]);
            }
        }
        proof {
            assert(assigned@.take(assigned@.len() as int) =~= assigned@);
            assert forall|w: WindowId| windows@.contains(w) == old(
                self,
            )@.records().assigned().filter(|w: WindowId| w.pid == pid).contains(w) by {
                assert(assigned@.to_set().contains(w) == assigned@.contains(w));
            }
            assert(windows@.to_set() =~= old(self)@.records().assigned().filter(
                |w: WindowId| w.pid == pid,
            ));
        }
        for i in 0..windows.len()
            invariant
                self@.registry is Some,
                self@ == old(self)@.without_windows(windows@.take(i as int)),
        {
            self.remove_window(windows[i]);
            assert(windows@.take(i + 1).drop_last() =~= windows@.take(i as int));
        }
        assert(windows@.take(windows@.len() as int) =~= windows@);
    }

    /// The windows of the active workspace, each once, in no particular order.
    pub fn windows_in_active_workspace(&self, space: SpaceId) -> (r: Vec<WindowId>)
        ensures
            r@.no_duplicates(),
            r@.to_set() == match self@.active_in(space) {
                Some(id) if self@.workspaces.contains_key(id) => self@.workspaces[id].windows,
                _ => Set::empty(),
            },
    {
        if let Some(workspace_id) = self.active_workspace(space) {
            if let Some(workspace) = self.workspaces.get(workspace_id) {
                return workspace.windows();
            }
        }
        let r: Vec<WindowId> = Vec::new();
        assert(r@.to_set() =~= Set::empty());
        r
    }

    /// False only for a window of `space` that is assigned to a workspace other
    /// than the active one.
    pub fn is_window_in_active_workspace(&self, space: SpaceId, window_id: WindowId) -> (r: bool)
        requires
            self@.registry is Some,
        ensures
            r == match (self@.active_in(space), self@.records().workspace_in(space, window_id)) {
                (Some(active), Some(id)) => id == active,
                _ => true,
            },
    {
        if let Some(active_workspace_id) = self.active_workspace(space) {
            if let Some(window_workspace_id) = self.window_registry.get().workspace_for_window(
                space,
                window_id,
            ) {
                return window_workspace_id == active_workspace_id;
            }
        }
        true
    }

    /// The windows of the workspaces of `space` that are not active, once for
    /// each of them that holds the window, in no particular order.
    pub fn windows_in_inactive_workspaces(&self, space: SpaceId) -> (r: Vec<WindowId>)
        ensures
            forall|w: WindowId| #[trigger]
                r@.to_multiset().count(w) == self@.inactive_holders(space, w).len(),
            forall|w: WindowId| #[trigger]
                r@.contains(w) <==> exists|id: VirtualWorkspaceId|
                    #![trigger self@.workspaces[id]]
                    self@.workspaces.contains_key(id) && self@.workspaces[id].space == space
                        && self@.workspaces[id].windows.contains(w) && Some(id)
                        != self@.active_in(space),
    {
        let active_workspace_id = self.active_workspace(space);
        let ids = self.workspaces.keys();
        let mut r: Vec<WindowId> = Vec::new();
        proof {
            broadcast use vstd::multiset::group_multiset_axioms;

            assert forall|w: WindowId| #[trigger] r@.to_multiset().count(w) == ids@.take(
                0,
            ).to_set().filter(self@.inactive_holder(space, w)).len() by {
                r@.to_multiset_ensures();
                assert(ids@.take(0).to_set().filter(self@.inactive_holder(space, w))
                    =~= Set::empty());
                assert(!r@.contains(w));
            }
        }
        for i in 0..ids.len()
            invariant
                active_workspace_id == self@.active_in(space),
                ids@.no_duplicates(),
                ids@.to_set() == self@.workspaces.dom(),
                forall|w: WindowId| #[trigger]
                    r@.to_multiset().count(w) == ids@.take(i as int).to_set().filter(
                        self@.inactive_holder(space, w),
                    ).len(),
        {
            let ghost before = r@;
            let ghost id = ids@[i as int];
            proof {
                assert(ids@.to_set().contains(id));
                assert(ids@.take(i + 1) =~= ids@.take(i as int).push(id));
                crate::id_map::lemma_contains_push(ids@.take(i as int), id);
                assert(ids@.take(i + 1).to_set() =~= ids@.take(i as int).to_set().insert(id));
                assert(!ids@.take(i as int).to_set().contains(id));
                assert forall|w: WindowId| ids@.take(i + 1).to_set().filter(
                    #[trigger] self@.inactive_holder(space, w),
                ).len() == ids@.take(i as int).to_set().filter(
                    self@.inactive_holder(space, w),
                ).len() + if self@.inactive_holder(space, w)(id) {
                    1nat
                } else {
                    0nat
                } by {
                    let p = self@.inactive_holder(space, w);
                    let s = ids@.take(i as int).to_set();
                    if p(id) {
                        assert(s.insert(id).filter(p) =~= s.filter(p).insert(id));
                    } else {
                        assert(s.insert(id).filter(p) =~= s.filter(p));
                    }
                }
            }
            match self.workspaces.get(ids[i]) {
                Some(workspace) => {
                    if workspace.space() == space && Some(ids[i]) != active_workspace_id {
                        let mut windows = workspace.windows();
                        let ghost added = windows@;
                        r.append(&mut windows);
                        proof {
                            assert forall|w: WindowId| #[trigger] r@.to_multiset().count(w)
                                == before.to_multiset().count(w)
                                + if self@.inactive_holder(space, w)(id) {
                                1nat
                            } else {
                                0nat
                            } by {
                                lemma_count_appended(before, added, w);
                                assert(added.to_set().contains(w) == added.contains(w));
                            }
                        }
                    } else {
                        assert forall|w: WindowId| !#[trigger] self@.inactive_holder(space, w)(
                            id,
                        ) by {}
                    }
                },
                None => {},
            }
            assert forall|w: WindowId| #[trigger] r@.to_multiset().count(w) == ids@.take(
                i + 1,
            ).to_set().filter(self@.inactive_holder(space, w)).len() by {
                assert(self@.inactive_holder(space, w)(id) || !self@.inactive_holder(space, w)(id));
            }
        }
        proof {
            assert(ids@.take(ids@.len() as int) =~= ids@);
            assert forall|w: WindowId| #[trigger] r@.to_multiset().count(w)
                == self@.inactive_holders(space, w).len() by {
                assert(self@.workspaces.dom().filter(self@.inactive_holder(space, w))
                    =~= self@.inactive_holders(space, w));
            }
            assert forall|w: WindowId| #[trigger] r@.contains(w) <==> exists|
                id: VirtualWorkspaceId,
            |
                #![trigger self@.workspaces[id]]
                self@.workspaces.contains_key(id) && self@.workspaces[id].space == space
                    && self@.workspaces[id].windows.contains(w) && Some(id) != self@.active_in(
                    space,
                ) by {
                let holders = self@.inactive_holders(space, w);
                r@.to_multiset_ensures();
                assert(holders.subset_of(self@.workspaces.dom()));
                vstd::set_lib::lemma_set_subset_finite(self@.workspaces.dom(), holders);
                assert(r@.contains(w) <==> r@.to_multiset().count(w) > 0);
                if r@.contains(w) {
                    let id = holders.choose();
                    assert(holders.contains(id));
                    assert(self@.workspaces[id].windows.contains(w));
                }
                if exists|id: VirtualWorkspaceId|
                    #![trigger self@.workspaces[id]]
                    self@.workspaces.contains_key(id) && self@.workspaces[id].space == space
                        && self@.workspaces[id].windows.contains(w) && Some(id)
                        != self@.active_in(space) {
                    let id = choose|id: VirtualWorkspaceId|
                        #![trigger self@.workspaces[id]]
                        self@.workspaces.contains_key(id) && self@.workspaces[id].space == space
                            && self@.workspaces[id].windows.contains(w) && Some(id)
                            != self@.active_in(space);
                    assert(holders.contains(id));
                    assert(holders.len() > 0);
                }
            }
        }
        r
    }

    /// Some window assigned to `space` with the given index.
    pub fn find_window_by_idx(&self, space: SpaceId, idx: u32) -> (r: Option<WindowId>)
        requires
            self@.registry is Some,
        ensures
            match r {
                Some(w) => self@.records().workspace_in(space, w) is Some && w.idx == idx,
                None => forall|w: WindowId|
                    w.idx == idx ==> #[trigger] self@.records().workspace_in(space, w) is None,
            },
    {
        let assigned = self.window_registry.get().iter_workspace_assignments();
        let ghost ids = assigned@.map_values(|entry: (WindowId, WindowWorkspaceInfo)| entry.0);
        for i in 0..assigned.len()
            invariant
                ids == assigned@.map_values(|entry: (WindowId, WindowWorkspaceInfo)| entry.0),
                forall|k: int|
                    0 <= k < assigned@.len() ==> self@.records().workspace_of(
                        (#[trigger] assigned@[k]).0,
                    ) == Some(assigned@[k].1),
                forall|k: int|
                    0 <= k < i ==> !((#[trigger] assigned@[k]).1.space == space
                        && assigned@[k].0.idx == idx),
        {
            if assigned[i].1.space == space && assigned[i].0.idx == idx {
                return Some(assigned[i].0);
            }
        }
        proof {
            assert forall|w: WindowId| w.idx == idx implies #[trigger] self@.records().workspace_in(
                space,
                w,
            ) is None by {
                if self@.records().workspace_in(space, w) is Some {
                    assert(self@.records().assigned().contains(w));
                    assert(ids.to_set().contains(w));
                    let k = choose|k: int| 0 <= k < ids.len() && ids[k] == w;
                    assert(assigned@[k].0 == w);
                }
            }
        }
        None
    }

    /// Some window of the workspace of `space` with the given index.
    pub fn find_window_in_workspace_by_idx(
        &self,
        space: SpaceId,
        workspace_id: VirtualWorkspaceId,
        idx: u32,
    ) -> (r: Option<WindowId>)
        ensures
            match r {
                Some(w) => self@.belongs(workspace_id, space)
                    && self@.workspaces[workspace_id].windows.contains(w) && w.idx == idx,
                None => self@.belongs(workspace_id, space) ==> forall|w: WindowId| #[trigger]
                    self@.workspaces[workspace_id].windows.contains(w) ==> w.idx != idx,
            },
    {
        match self.workspace_info(space, workspace_id) {
            Some(workspace) => {
                let windows = workspace.windows();
                for i in 0..windows.len()
                    invariant
                        self@.belongs(workspace_id, space),
                        windows@.to_set() == self@.workspaces[workspace_id].windows,
                        forall|k: int| 0 <= k < i ==> (#[trigger] windows@[k]).idx != idx,
                {
                    if windows[i].idx == idx {
                        assert(windows@.to_set().contains(windows@[i as int]));
                        return Some(windows[i]);
                    }
                }
                proof {
                    assert forall|w: WindowId| #[trigger]
                        self@.workspaces[workspace_id].windows.contains(w) implies w.idx != idx by {
                        assert(windows@.to_set().contains(w));
                        let k = choose|k: int| 0 <= k < windows@.len() && windows@[k] == w;
                    }
                }
                None
            },
            None => None,
        }
    }

    pub fn set_last_focused_window(
        &mut self,
        space: SpaceId,
        workspace_id: VirtualWorkspaceId,
        window_id: Option<WindowId>,
    )
        ensures
            final(self)@ == if old(self)@.belongs(workspace_id, space) {
                old(self)@.with_workspace(
                    workspace_id,
                    |w: WorkspaceView| (WorkspaceView { last_focused: window_id, ..w }),
                )
            } else {
                old(self)@
            },
    {
        if self.belongs(workspace_id, space) {
            if let Some(workspace) = self.workspaces.get_mut(workspace_id) {
                workspace.set_last_focused(window_id);
            }
            assert(self@ =~= old(self)@.with_workspace(
                workspace_id,
                |w: WorkspaceView| WorkspaceView { last_focused: window_id, ..w },
            ));
        }
    }

    pub fn last_focused_window(&self, space: SpaceId, workspace_id: VirtualWorkspaceId) -> (r:
        Option<WindowId>)
        ensures
            r == (if self@.belongs(workspace_id, space) {
                self@.workspaces[workspace_id].last_focused
            } else {
                None
            }),
    {
        match self.workspace_info(space, workspace_id) {
            Some(workspace) => workspace.last_focused(),
            None => None,
        }
    }

    /// The workspace, where it is one of `space`.
    pub fn workspace_info(&self, space: SpaceId, workspace_id: VirtualWorkspaceId) -> (r: Option<
        &VirtualWorkspace,
    >)
        ensures
            match r {
                Some(workspace) => self@.belongs(workspace_id, space) && workspace@
                    == self@.workspaces[workspace_id],
                None => !self@.belongs(workspace_id, space),
            },
    {
        match self.workspaces.get(workspace_id) {
            Some(workspace) => {
                if workspace.space() == space {
                    Some(workspace)
                } else {
                    None
                }
            },
            None => None,
        }
    }

    pub fn store_floating_position(
        &mut self,
        space: SpaceId,
        workspace_id: VirtualWorkspaceId,
        window_id: WindowId,
        position: Frame,
    )
        ensures
            final(self)@ == old(self)@.with_positions(
                space,
                workspace_id,
                old(self)@.positions_of(space, workspace_id).insert(window_id, position),
            ),
    {
        let mut positions = self.floating_positions.take(space, workspace_id);
        positions.store_position(window_id, position);
        self.floating_positions.put(space, workspace_id, positions);
        assert(self@ =~= old(self)@.with_positions(
            space,
            workspace_id,
            old(self)@.positions_of(space, workspace_id).insert(window_id, position),
        ));
    }

    pub fn store_floating_position_if_absent(
        &mut self,
        space: SpaceId,
        workspace_id: VirtualWorkspaceId,
        window_id: WindowId,
        position: Frame,
    )
        ensures
            final(self)@ == old(self)@.with_positions(
                space,
                workspace_id,
                crate::floating::with_absent(
                    old(self)@.positions_of(space, workspace_id),
                    window_id,
                    position,
                ),
            ),
    {
        let mut positions = self.floating_positions.take(space, workspace_id);
        positions.store_if_absent(window_id, position);
        let ghost stored = positions@;
        self.floating_positions.put(space, workspace_id, positions);
        assert(self@ =~= old(self)@.with_positions(space, workspace_id, stored));
    }

    pub fn get_floating_position(
        &self,
        space: SpaceId,
        workspace_id: VirtualWorkspaceId,
        window_id: WindowId,
    ) -> (r: Option<Frame>)
        ensures
            r == (if self@.positions_of(space, workspace_id).contains_key(window_id) {
                Some(self@.positions_of(space, workspace_id)[window_id])
            } else {
                None
            }),
    {
        match self.floating_positions.get(space, workspace_id) {
            Some(positions) => positions.get_position(window_id),
            None => None,
        }
    }

    /// Stores the positions for the active workspace of `space`; of two for one
    /// window the later one stays.
    pub fn store_current_floating_positions(
        &mut self,
        space: SpaceId,
        floating_windows: &Vec<(WindowId, Frame)>,
    )
        ensures
            final(self)@ == match old(self)@.active_in(space) {
                Some(id) => old(self)@.with_positions(
                    space,
                    id,
                    crate::manager_state::stored(
                        old(self)@.positions_of(space, id),
                        floating_windows@,
                    ),
                ),
                None => old(self)@,
            },
    {
        if let Some(workspace_id) = self.active_workspace(space) {
            let mut positions = self.floating_positions.take(space, workspace_id);
            let ghost start = positions@;
            for i in 0..floating_windows.len()
                invariant
                    positions@ == crate::manager_state::stored(
                        start,
                        floating_windows@.take(i as int),
                    ),
            {
                assert(floating_windows@.take(i + 1).drop_last() =~= floating_windows@.take(
                    i as int,
                ));
                positions.store_position(floating_windows[i].0, floating_windows[i].1);
            }
            assert(floating_windows@.take(floating_windows@.len() as int) =~= floating_windows@);
            let ghost stored = positions@;
            self.floating_positions.put(space, workspace_id, positions);
            assert(self@ =~= old(self)@.with_positions(space, workspace_id, stored));
        }
    }

    /// The positions of a workspace, each window once, in no particular order.
    pub fn get_workspace_floating_positions(
        &self,
        space: SpaceId,
        workspace_id: VirtualWorkspaceId,
    ) -> (r: Vec<(WindowId, Frame)>)
        ensures
            r@.map_values(|entry: (WindowId, Frame)| entry.0).no_duplicates(),
            r@.map_values(|entry: (WindowId, Frame)| entry.0).to_set() == self@.positions_of(
                space,
                workspace_id,
            ).dom(),
            forall|i: int|
                0 <= i < r@.len() ==> self@.positions_of(space, workspace_id)[(#[trigger] r@[i]).0]
                    == r@[i].1,
    {
        let mut r: Vec<(WindowId, Frame)> = Vec::new();
        match self.floating_positions.get(space, workspace_id) {
            Some(positions) => {
                let windows = positions.windows();
                for i in 0..windows.len()
                    invariant
                        windows@.to_set() == positions@.dom(),
                        positions@ == self@.positions_of(space, workspace_id),
                        r@.map_values(|entry: (WindowId, Frame)| entry.0) =~= windows@.take(
                            i as int,
                        ),
                        forall|j: int|
                            0 <= j < r@.len() ==> positions@[(#[trigger] r@[j]).0] == r@[j].1,
                {
                    assert(windows@.to_set().contains(windows@[i as int]));
                    let ghost before = r@;
                    if let Some(position) = positions.get_position(windows[i]) {
                        r.push((windows[i], position));
                        assert(r@.map_values(|entry: (WindowId, Frame)| entry.0)
                            =~= before.map_values(|entry: (WindowId, Frame)| entry.0).push(
                            windows@[i as int],
                        ));
                    }
                }
                assert(windows@.take(windows@.len() as int) =~= windows@);
            },
            None => {
                assert(r@.map_values(|entry: (WindowId, Frame)| entry.0).to_set()
                    =~= self@.positions_of(space, workspace_id).dom());
            },
        }
        r
    }

    pub fn remove_floating_position(&mut self, window_id: WindowId)
        ensures
            final(self)@ == (ManagerView {
                floating: old(self)@.floating.map_values(
                    |positions: Map<WindowId, Frame>| positions.remove(window_id),
                ),
                ..old(self)@
            }),
    {
        self.floating_positions.remove_window(window_id);
    }

    pub fn remove_app_floating_positions(&mut self, pid: i32)
        ensures
            final(self)@ == (ManagerView {
                floating: old(self)@.floating.map_values(
                    |positions: Map<WindowId, Frame>| crate::floating::without_app(positions, pid),
                ),
                ..old(self)@
            }),
    {
        self.floating_positions.remove_app(pid);
    }

    /// Renames a workspace; false, and nothing changes, where it is not one of
    /// `space`.
    pub fn rename_workspace(
        &mut self,
        space: SpaceId,
        workspace_id: VirtualWorkspaceId,
        new_name: String,
    ) -> (r: bool)
        ensures
            r == old(self)@.belongs(workspace_id, space),
            final(self)@ == (if r {
                old(self)@.with_workspace(
                    workspace_id,
                    |w: WorkspaceView| (WorkspaceView { name: new_name@, ..w }),
                )
            } else {
                old(self)@
            }),
    {
        if !self.belongs(workspace_id, space) {
            return false;
        }
        let ghost text = new_name@;
        if let Some(workspace) = self.workspaces.get_mut(workspace_id) {
            workspace.set_name(new_name);
        }
        assert(self@ =~= old(self)@.with_workspace(
            workspace_id,
            |w: WorkspaceView| WorkspaceView { name: text, ..w },
        ));
        true
    }

    /// The windows of a workspace of `space`, each once, by ascending index.
    pub fn workspace_windows(&self, space: SpaceId, workspace_id: VirtualWorkspaceId) -> (r: Vec<
        WindowId,
    >)
        ensures
            r@.no_duplicates(),
            r@.to_set() == (if self@.belongs(workspace_id, space) {
                self@.workspaces[workspace_id].windows
            } else {
                Set::empty()
            }),
            crate::manager_state::ascending(r@),
    {
        match self.workspace_info(space, workspace_id) {
            Some(workspace) => sorted_by_idx(&workspace.windows()),
            None => {
                let r: Vec<WindowId> = Vec::new();
                assert(r@.to_set() =~= Set::empty());
                r
            },
        }
    }

    /// The workspaces that have the window, each once with its space, in no
    /// particular order.
    pub fn locations_of(&self, window_id: WindowId) -> (r: Vec<(VirtualWorkspaceId, SpaceId)>)
        ensures
            self@.locates(window_id, r@),
            r@.len() == self@.holders(window_id).len(),
    {
        let ids = self.workspaces.keys();
        let mut r: Vec<(VirtualWorkspaceId, SpaceId)> = Vec::new();
        let ghost mut found: Seq<VirtualWorkspaceId> = Seq::empty();
        for i in 0..ids.len()
            invariant
                ids@.no_duplicates(),
                ids@.to_set() == self@.workspaces.dom(),
                found == r@.map_values(|entry: (VirtualWorkspaceId, SpaceId)| entry.0),
                found.no_duplicates(),
                forall|id: VirtualWorkspaceId| #[trigger]
                    found.contains(id) <==> ids@.take(i as int).contains(id) && self@.holds(
                        id,
                        window_id,
                    ),
                forall|j: int|
                    0 <= j < r@.len() ==> (#[trigger] r@[j]).1 == self@.workspaces[r@[j].0].space,
        {
            let ghost id = ids@[i as int];
            proof {
                assert(ids@.to_set().contains(id));
                assert(ids@.take(i + 1) =~= ids@.take(i as int).push(id));
                crate::id_map::lemma_contains_push(ids@.take(i as int), id);
                crate::id_map::lemma_contains_push(found, id);
                assert(!ids@.take(i as int).contains(id));
                assert(!found.contains(id));
            }
            if let Some(workspace) = self.workspaces.get(ids[i]) {
                if workspace.contains_window(window_id) {
                    r.push((ids[i], workspace.space()));
                    proof {
                        found = found.push(id);
                        assert(found =~= r@.map_values(
                            |entry: (VirtualWorkspaceId, SpaceId)| entry.0,
                        ));
                    }
                }
            }
        }
        proof {
            assert(ids@.take(ids@.len() as int) =~= ids@);
            assert forall|id: VirtualWorkspaceId| found.contains(id) == self@.holders(
                window_id,
            ).contains(id) by {
                assert(ids@.to_set().contains(id) == ids@.contains(id));
            }
            assert(found.to_set() =~= self@.holders(window_id));
            found.unique_seq_to_set();
        }
        r
    }

    /// The windows that some workspace has.
    fn member_windows(&self) -> (r: IdSet<WindowId>)
        ensures
            forall|w: WindowId| #[trigger]
                r@.contains(w) <==> exists|id: VirtualWorkspaceId| self@.holds(id, w),
    {
        let ids = self.workspaces.keys();
        let mut r: IdSet<WindowId> = IdSet::new();
        for i in 0..ids.len()
            invariant
                ids@.to_set() == self@.workspaces.dom(),
                forall|w: WindowId| #[trigger]
                    r@.contains(w) <==> exists|k: int|
                        0 <= k < i && self@.holds(#[trigger] ids@[k], w),
        {
            assert(ids@.to_set().contains(ids@[i as int]));
            if let Some(workspace) = self.workspaces.get(ids[i]) {
                let windows = workspace.windows();
                let ghost before = r@;
                for j in 0..windows.len()
                    invariant
                        i < ids@.len(),
                        forall|w: WindowId| #[trigger]
                            r@.contains(w) <==> before.contains(w) || windows@.take(
                                j as int,
                            ).contains(w),
                {
                    proof {
                        assert(windows@.take(j + 1) =~= windows@.take(j as int).push(
                            windows@[j as int],
                        ));
                        crate::id_map::lemma_contains_push(
                            windows@.take(j as int),
                            windows@[j as int],
                        );
                    }
                    r.insert(windows[j]);
                }
                assert(windows@.take(windows@.len() as int) =~= windows@);
                assert forall|w: WindowId| #[trigger] r@.contains(w) <==> exists|k: int|
                    0 <= k < i + 1 && self@.holds(#[trigger] ids@[k], w) by {
                    assert(windows@.to_set().contains(w) == windows@.contains(w));
                    assert(windows@.contains(w) == self@.holds(ids@[i as int], w));
                    if r@.contains(w) && before.contains(w) {
                        let k = choose|k: int| 0 <= k < i && self@.holds(#[trigger] ids@[k], w);
                        assert(self@.holds(ids@[k], w));
                    }
                }
            }
        }
        proof {
            assert forall|w: WindowId| #[trigger] r@.contains(w) <==> exists|id: VirtualWorkspaceId|
                self@.holds(id, w) by {
                if exists|id: VirtualWorkspaceId| self@.holds(id, w) {
                    let id = choose|id: VirtualWorkspaceId| self@.holds(id, w);
                    assert(ids@.to_set().contains(id));
                    let k = choose|k: int| 0 <= k < ids@.len() && ids@[k] == id;
                    assert(self@.holds(ids@[k], w));
                }
            }
        }
        r
    }

    /// The windows that are in more than one workspace, each once, in no
    /// particular order.
    pub fn audit_membership(&self) -> (r: Vec<DuplicateMembership>)
        requires
            self@.registry is Some,
        ensures
            r@.map_values(|d: DuplicateMembership| d.window_id).no_duplicates(),
            forall|w: WindowId|
                r@.map_values(|d: DuplicateMembership| d.window_id).contains(w)
                    <==> #[trigger] self@.holders(w).len() > 1,
            forall|i: int|
                0 <= i < r@.len() ==> self@.locates(
                    (#[trigger] r@[i]).window_id,
                    r@[i].locations@,
                ) && r@[i].registry == self@.records().workspace_of(r@[i].window_id),
    {
        let windows = self.member_windows().to_vec();
        let mut r: Vec<DuplicateMembership> = Vec::new();
        let ghost mut found: Seq<WindowId> = Seq::empty();
        for i in 0..windows.len()
            invariant
                self@.registry is Some,
                windows@.no_duplicates(),
                found == r@.map_values(|d: DuplicateMembership| d.window_id),
                found.no_duplicates(),
                forall|w: WindowId| #[trigger]
                    found.contains(w) <==> windows@.take(i as int).contains(w) && self@.holders(
                        w,
                    ).len() > 1,
                forall|j: int|
                    0 <= j < r@.len() ==> self@.locates(
                        (#[trigger] r@[j]).window_id,
                        r@[j].locations@,
                    ) && r@[j].registry == self@.records().workspace_of(r@[j].window_id),
        {
            let window_id = windows[i];
            proof {
                assert(windows@.take(i + 1) =~= windows@.take(i as int).push(window_id));
                crate::id_map::lemma_contains_push(windows@.take(i as int), window_id);
                crate::id_map::lemma_contains_push(found, window_id);
                assert(!windows@.take(i as int).contains(window_id));
                assert(!found.contains(window_id));
            }
            let locations = self.locations_of(window_id);
            if locations.len() > 1 {
                let registry = self.window_registry.get().workspace_info_for_window(window_id);
                r.push(DuplicateMembership { window_id, locations, registry });
                proof {
                    found = found.push(window_id);
                    assert(found =~= r@.map_values(|d: DuplicateMembership| d.window_id));
                }
            }
        }
        proof {
            assert(windows@.take(windows@.len() as int) =~= windows@);
            assert forall|w: WindowId|
                found.contains(w) <==> #[trigger] self@.holders(w).len() > 1 by {
                if self@.holders(w).len() > 1 {
                    let id = self@.holders(w).choose();
                    assert(self@.holders(w).contains(id));
                    assert(self@.holds(id, w));
                    assert(windows@.to_set().contains(w));
                }
            }
        }
        r
    }

    fn filtered_workspace_ids(&self, space: SpaceId, skip_empty: Option<bool>) -> (r: Vec<
        VirtualWorkspaceId,
    >)
        ensures
            r@ == self@.filtered(space, skip_empty == Some(true)),
    {
        let require_non_empty = skip_empty == Some(true);
        let ghost wanted = self@.can_be_stepped_to(require_non_empty);
        let mut r: Vec<VirtualWorkspaceId> = Vec::new();
        match self.workspaces_by_space.get(space) {
            Some(ids) => {
                assert(ids@.take(0).filter(wanted) =~= Seq::empty()) by {
                    reveal(Seq::filter);
                }
                for i in 0..ids.len()
                    invariant
                        wanted == self@.can_be_stepped_to(require_non_empty),
                        r@ =~= ids@.take(i as int).filter(wanted),
                {
                    proof {
                        crate::id_map::lemma_filter_take(ids@, wanted, i as int);
                    }
                    if let Some(workspace) = self.workspaces.get(ids[i]) {
                        if !(require_non_empty && workspace.window_count() == 0) {
                            r.push(ids[i]);
                        }
                    }
                }
                assert(ids@.take(ids@.len() as int) =~= ids@);
                assert(ids@ == self@.ids_of(space));
            },
            None => {
                assert(self@.ids_of(space).filter(wanted) =~= Seq::empty()) by {
                    reveal(Seq::filter);
                }
            },
        }
        r
    }

    /// The workspace one step from `current`.
    fn step_workspace(
        &self,
        space: SpaceId,
        current: VirtualWorkspaceId,
        skip_empty: Option<bool>,
        dir: Direction,
    ) -> (r: Option<VirtualWorkspaceId>)
        ensures
            r == self@.stepped_from(space, current, skip_empty == Some(true), dir),
    {
        let require_non_empty = skip_empty == Some(true);
        let base_ids: Vec<VirtualWorkspaceId> = if require_non_empty {
            self.filtered_workspace_ids(space, Some(true))
        } else {
            self.workspace_ids(space)
        };
        assert(base_ids@ =~= if require_non_empty {
            self@.filtered(space, true)
        } else {
            self@.ids_of(space)
        });
        if base_ids.len() == 0 {
            return None;
        }
        if let Some(pos) = position(&base_ids, current) {
            proof {
                assert(base_ids@.contains(current));
                let p = choose|i: int| #[trigger]
                    crate::manager_state::first_at(base_ids@, current, i);
                crate::manager_state::lemma_first_at(base_ids@, current, pos as int, p);
            }
            let i: usize = dir.step(pos, base_ids.len());
            return Some(base_ids[i]);
        }
        let fallback_ids = self.filtered_workspace_ids(space, Some(false));
        let start: usize = match position(&fallback_ids, current) {
            Some(start) => start,
            None => return None,
        };
        proof {
            assert(fallback_ids@.contains(current));
            let p = choose|i: int| #[trigger]
                crate::manager_state::first_at(fallback_ids@, current, i);
            crate::manager_state::lemma_first_at(fallback_ids@, current, start as int, p);
        }
        let n: usize = fallback_ids.len();
        let mut i: usize = dir.step(start, n);
        if !require_non_empty {
            return Some(fallback_ids[i]);
        }
        let mut left: usize = n;
        while left > 0
            invariant
                left <= n,
                n == fallback_ids@.len(),
                i < n,
                self@.stepped_from(space, current, skip_empty == Some(true), dir)
                    == self@.next_occupied(fallback_ids@, i as nat, dir, left as nat),
            decreases left,
        {
            let id = fallback_ids[i];
            if let Some(workspace) = self.workspaces.get(id) {
                if workspace.window_count() != 0 {
                    return Some(id);
                }
            }
            i = dir.step(i, n);
            left = left - 1;
        }
        None
    }

    pub fn next_workspace(
        &self,
        space: SpaceId,
        current: VirtualWorkspaceId,
        skip_empty: Option<bool>,
    ) -> (r: Option<VirtualWorkspaceId>)
        ensures
            r == self@.stepped_from(space, current, skip_empty == Some(true), Direction::Right),
    {
        self.step_workspace(space, current, skip_empty, Direction::Right)
    }

    pub fn prev_workspace(
        &self,
        space: SpaceId,
        current: VirtualWorkspaceId,
        skip_empty: Option<bool>,
    ) -> (r: Option<VirtualWorkspaceId>)
        ensures
            r == self@.stepped_from(space, current, skip_empty == Some(true), Direction::Left),
    {
        self.step_workspace(space, current, skip_empty, Direction::Left)
    }

    pub fn get_stats(&self) -> (r: WorkspaceStats)
        requires
            self@.registry is Some,
        ensures
            r.total_workspaces == self@.workspaces.len(),
            r.total_windows == self@.records().assigned().len(),
            r.active_spaces == self@.active.len(),
            r.workspace_window_counts@.map_values(
                |entry: (VirtualWorkspaceId, usize)| entry.0,
            ).no_duplicates(),
            r.workspace_window_counts@.map_values(
                |entry: (VirtualWorkspaceId, usize)| entry.0,
            ).to_set() == self@.workspaces.dom(),
            forall|i: int|
                0 <= i < r.workspace_window_counts@.len() ==> (
                #[trigger] r.workspace_window_counts@[i]).1
                    == self@.workspaces[r.workspace_window_counts@[i].0].windows.len(),
    {
        let ids = self.workspaces.keys();
        let mut counts: Vec<(VirtualWorkspaceId, usize)> = Vec::new();
        for i in 0..ids.len()
            invariant
                ids@.to_set() == self@.workspaces.dom(),
                counts@.map_values(|entry: (VirtualWorkspaceId, usize)| entry.0) =~= ids@.take(
                    i as int,
                ),
                forall|j: int|
                    0 <= j < counts@.len() ==> (#[trigger] counts@[j]).1
                        == self@.workspaces[counts@[j].0].windows.len(),
        {
            assert(ids@.to_set().contains(ids@[i as int]));
            let ghost before = counts@;
            if let Some(workspace) = self.workspaces.get(ids[i]) {
                counts.push((ids[i], workspace.window_count()));
                assert(counts@.map_values(|entry: (VirtualWorkspaceId, usize)| entry.0)
                    =~= before.map_values(|entry: (VirtualWorkspaceId, usize)| entry.0).push(
                    ids@[i as int],
                ));
            }
        }
        assert(ids@.take(ids@.len() as int) =~= ids@);
        WorkspaceStats {
            total_workspaces: self.workspaces.len(),
            total_windows: self.window_registry.get().workspace_assignment_count(),
            active_spaces: self.active_workspace_per_space.len(),
            workspace_window_counts: counts,
        }
    }

    /// Moves the workspaces of `old_space` to `new_space`, in place of those
    /// that were there.
    pub fn remap_space(&mut self, old_space: SpaceId, new_space: SpaceId)
        requires
            old(self)@.registry is Some,
        ensures
            final(self)@ == old(self)@.with_space_renamed(old_space, new_space),
    {
        if old_space == new_space || !self.workspaces_by_space.contains_key(old_space) {
            return;
        }
        let ghost start = self@;
        let ghost replaced = start.ids_of(new_space);
        if let Some(existing) = self.workspaces_by_space.remove(new_space) {
            assert(existing@ == replaced);
            for i in 0..existing.len()
                invariant
                    existing@ == replaced,
                    self@ == (ManagerView {
                        workspaces: self@.workspaces,
                        by_space: start.by_space.remove(new_space),
                        ..start
                    }),
                    forall|id: VirtualWorkspaceId| #[trigger]
                        self@.workspaces.contains_key(id) <==> start.workspaces.contains_key(id)
                            && !(replaced.take(i as int).contains(id)
                            && start.workspaces[id].space == new_space),
                    forall|id: VirtualWorkspaceId| #[trigger]
                        self@.workspaces.contains_key(id) ==> self@.workspaces[id]
                            == start.workspaces[id],
            {
                proof {
                    assert(replaced.take(i + 1) =~= replaced.take(i as int).push(
                        replaced[i as int],
                    ));
                    crate::id_map::lemma_contains_push(
                        replaced.take(i as int),
                        replaced[i as int],
                    );
                }
                let ws_id = existing[i];
                if self.belongs(ws_id, new_space) {
                    self.workspaces.remove(ws_id);
                }
            }
        } else {
            assert(self@ =~= start);
            assert(start.by_space =~= start.by_space.remove(new_space));
        }
        proof {
            assert(replaced.take(replaced.len() as int) =~= replaced);
        }
        self.active_workspace_per_space.remove(new_space);
        let ghost kept = self@;
        assert(kept.by_space.contains_key(old_space));
        assert(kept.by_space[old_space] == start.by_space[old_space]);
        let ids = match self.workspaces_by_space.remove(old_space) {
            Some(ids) => ids,
            None => Vec::new(),
        };
        let ghost moved = ids@;
        assert(moved == start.by_space[old_space]);
        for i in 0..ids.len()
            invariant
                ids@ == moved,
                self@ == (ManagerView {
                    workspaces: self@.workspaces,
                    by_space: start.by_space.remove(new_space).remove(old_space),
                    ..kept
                }),
                self@.workspaces.dom() == kept.workspaces.dom(),
                forall|id: VirtualWorkspaceId| #[trigger]
                    self@.workspaces.contains_key(id) ==> self@.workspaces[id] == if moved.take(
                        i as int,
                    ).contains(id) {
                        (WorkspaceView { space: new_space, ..kept.workspaces[id] })
                    } else {
                        kept.workspaces[id]
                    },
        {
            proof {
                assert(moved.take(i + 1) =~= moved.take(i as int).push(moved[i as int]));
                crate::id_map::lemma_contains_push(moved.take(i as int), moved[i as int]);
            }
            if let Some(workspace) = self.workspaces.get_mut(ids[i]) {
                workspace.set_space(new_space);
            }
            assert(self@.workspaces.dom() =~= kept.workspaces.dom());
        }
        proof {
            assert(moved.take(moved.len() as int) =~= moved);
        }
        if ids.len() > 0 {
            self.workspaces_by_space.insert(new_space, ids);
        }
        if let Some(pair) = self.active_workspace_per_space.remove(old_space) {
            self.active_workspace_per_space.insert(new_space, pair);
        }
        self.window_registry.get_mut().remap_space(old_space, new_space);
        self.floating_positions.rename_space(old_space, new_space);
        proof {
            let wanted = start.with_space_renamed(old_space, new_space);
            assert(self@.workspaces =~= wanted.workspaces);
            assert(self@.by_space =~= wanted.by_space);
            assert(self@.active =~= wanted.active);
            assert(self@ =~= wanted);
        }
    }

    /// Takes over new settings, and gives each space that has fewer workspaces
    /// than asked for the missing ones.
    pub fn update_settings(
        &mut self,
        config: &VirtualWorkspaceSettings,
        layout_settings: &LayoutSettings,
    )
        requires
            old(self)@.has_spare_room((MAX_WORKSPACES * old(self)@.by_space.len()) as nat),
        ensures
            exists|order: Seq<SpaceId>, added: Seq<Seq<VirtualWorkspaceId>>|
                order.no_duplicates() && order.to_set() == old(self)@.by_space.dom()
                    && #[trigger] old(self)@.with_settings(*config, *layout_settings).can_fill(
                    order,
                    added,
                ) && final(self)@ == old(self)@.with_settings(*config, *layout_settings).filled(
                    order,
                    added,
                ),
    {
        let app_rules = config.app_rules.clone();
        let names = config.workspace_names.clone();
        let workspace_rules = config.workspace_rules.clone();
        proof {
            assert(app_rules@ =~= config.app_rules@);
            assert(names@ =~= config.workspace_names@);
            assert(workspace_rules@ =~= config.workspace_rules@);
        }
        self.app_rules = AppRuleSet::new(app_rules);
        self.workspace_rules = workspace_rules;
        self.default_layout_mode = layout_settings.mode;
        self.layout_settings = *layout_settings;
        self.default_workspace_count = config.default_workspace_count;
        self.default_workspace_names = names;
        self.workspace_auto_back_and_forth = config.workspace_auto_back_and_forth;
        let target_count: usize = held_count(self.default_workspace_count);
        self.default_workspace = if config.default_workspace < target_count - 1 {
            config.default_workspace
        } else {
            target_count - 1
        };
        let ghost start = old(self)@.with_settings(*config, *layout_settings);
        assert(self@ =~= start);
        let spaces = self.workspaces_by_space.keys();
        let ghost mut added: Seq<Seq<VirtualWorkspaceId>> = Seq::empty();
        assert(self.workspaces_by_space@.dom() =~= start.by_space.dom());
        proof {
            spaces@.unique_seq_to_set();
        }
        for i in 0..spaces.len()
            invariant
                target_count == crate::manager_state::start_count(start.default_count),
                target_count <= MAX_WORKSPACES,
                spaces@.no_duplicates(),
                spaces@.to_set() == start.by_space.dom(),
                spaces@.len() == start.by_space.len(),
                start.workspaces.len() + MAX_WORKSPACES * start.by_space.len()
                    <= crate::slots::SLOT_LIMIT,
                start.counter + MAX_WORKSPACES * start.by_space.len() <= usize::MAX,
                self@.workspaces.len() <= start.workspaces.len() + MAX_WORKSPACES * i,
                self@.counter <= start.counter + MAX_WORKSPACES * i,
                added.len() == i,
                start.can_fill(spaces@.take(i as int), added),
                self@ == start.filled(spaces@.take(i as int), added),
                self@.by_space.dom() == start.by_space.dom(),
                self@.default_count == start.default_count,
        {
            let space = spaces[i];
            let ghost here = self@;
            proof {
                assert(spaces@.to_set().contains(space));
                assert(here.by_space.contains_key(space));
                assert(MAX_WORKSPACES * (i + 1) <= MAX_WORKSPACES * start.by_space.len())
                    by (nonlinear_arith)
                    requires
                        i + 1 <= start.by_space.len(),
                ;
            }
            let new_ids = self.fill_space(space, target_count);
            proof {
                let more = added.push(new_ids@);
                assert(spaces@.take(i + 1).drop_last() =~= spaces@.take(i as int));
                assert(more.drop_last() =~= added);
                added = more;
            }
        }
        assert(spaces@.take(spaces@.len() as int) =~= spaces@);
    }

    /// Adds workspaces to `space` until it has as many as asked for; returns
    /// those that were added.
    fn fill_space(&mut self, space: SpaceId, target_count: usize) -> (r: Vec<VirtualWorkspaceId>)
        requires
            old(self)@.by_space.contains_key(space),
            target_count <= MAX_WORKSPACES,
            old(self)@.has_spare_room(MAX_WORKSPACES as nat),
        ensures
            old(self)@.can_extend(space, r@),
            final(self)@ == old(self)@.extended(space, r@),
            r@.len() == if old(self)@.ids_of(space).len() < target_count {
                target_count - old(self)@.ids_of(space).len()
            } else {
                0
            },
            final(self)@.by_space.dom() == old(self)@.by_space.dom(),
            final(self)@.default_count == old(self)@.default_count,
            final(self)@.workspaces.len() <= old(self)@.workspaces.len() + MAX_WORKSPACES,
            final(self)@.counter <= old(self)@.counter + MAX_WORKSPACES,
    {
        let mut r: Vec<VirtualWorkspaceId> = Vec::new();
        let ghost start = self@;
        let first: usize = match self.workspaces_by_space.get(space) {
            Some(ids) => ids.len(),
            None => 0,
        };
        let mut idx: usize = first;
        while idx < target_count
            invariant
                target_count <= MAX_WORKSPACES,
                first == start.ids_of(space).len(),
                start.workspaces.len() + MAX_WORKSPACES <= crate::slots::SLOT_LIMIT,
                start.counter + MAX_WORKSPACES <= usize::MAX,
                start.by_space.contains_key(space),
                first <= idx,
                first < target_count ==> idx <= target_count,
                first >= target_count ==> idx == first,
                r@.len() == idx - first,
                self@.ids_of(space).len() == idx,
                self@.workspaces.len() == start.workspaces.len() + r@.len(),
                self@.counter <= start.counter + r@.len(),
                start.can_extend(space, r@),
                self@ == start.extended(space, r@),
                self@.by_space.dom() == start.by_space.dom(),
                self@.default_count == start.default_count,
            decreases target_count - idx,
        {
            let ghost here = self@;
            let name = if idx < self.default_workspace_names.len() {
                self.default_workspace_names[idx].clone()
            } else {
                let name = numbered(self.workspace_counter);
                self.workspace_counter = self.workspace_counter + 1;
                name
            };
            let mode = self.resolve_layout_mode_for_workspace(idx, name.as_str());
            let workspace = VirtualWorkspace::new(name, space, mode, &self.layout_settings);
            let id = self.workspaces.insert(workspace);
            let ids = self.workspaces_by_space.get_or_insert(space, Vec::new());
            ids.push(id);
            let ghost before = r@;
            r.push(id);
            proof {
                assert(r@.drop_last() =~= before);
                assert(self@ =~= here.extended_by(space, id));
                assert(self@.by_space.dom() =~= start.by_space.dom());
            }
            idx = idx + 1;
        }
        r
    }
}

/// Counting in a sequence to which distinct elements have been appended.
proof fn lemma_count_appended(a: Seq<WindowId>, b: Seq<WindowId>, w: WindowId)
    requires
        b.no_duplicates(),
    ensures
        (a + b).to_multiset().count(w) == a.to_multiset().count(w) + (if b.contains(w) {
            1nat
        } else {
            0nat
        }),
{
    broadcast use vstd::multiset::group_multiset_axioms;

    vstd::seq_lib::lemma_multiset_commutative(a, b);
    b.lemma_multiset_has_no_duplicates();
    b.to_multiset_ensures();
    if b.contains(w) {
        assert(b.to_multiset().contains(w));
    }
}

/// The windows by ascending index.
fn sorted_by_idx(windows: &Vec<WindowId>) -> (r: Vec<WindowId>)
    requires
        windows@.no_duplicates(),
    ensures
        r@.no_duplicates(),
        r@.to_set() == windows@.to_set(),
        crate::manager_state::ascending(r@),
{
    let mut r: Vec<WindowId> = Vec::new();
    for i in 0..windows.len()
        invariant
            windows@.no_duplicates(),
            r@.no_duplicates(),
            forall|w: WindowId| #[trigger]
                r@.contains(w) <==> windows@.take(i as int).contains(w),
            crate::manager_state::ascending(r@),
    {
        let window = windows[i];
        let mut at: usize = 0;
        while at < r.len() && r[at].idx <= window.idx
            invariant
                at <= r@.len(),
                forall|k: int| 0 <= k < at ==> (#[trigger] r@[k]).idx <= window.idx,
            decreases r@.len() - at,
        {
            at = at + 1;
        }
        let ghost before = r@;
        proof {
            assert(windows@.take(i + 1) =~= windows@.take(i as int).push(window));
            crate::id_map::lemma_contains_push(windows@.take(i as int), window);
            assert(!windows@.take(i as int).contains(window));
            assert(!before.contains(window));
        }
        r.insert(at, window);
        proof {
            assert forall|w: WindowId| #[trigger] r@.contains(w) <==> before.contains(w) || w
                == window by {
                if before.contains(w) {
                    let k = choose|k: int| 0 <= k < before.len() && before[k] == w;
                    let m = if k < at {
                        k
                    } else {
                        k + 1
                    };
                    assert(r@[m] == w);
                }
                assert(r@[at as int] == window);
                if r@.contains(w) {
                    let k = choose|k: int| 0 <= k < r@.len() && r@[k] == w;
                    if k < at {
                        assert(before[k] == w);
                    } else if k > at {
                        assert(before[k - 1] == w);
                    }
                }
            }
            assert forall|a: int, b: int| 0 <= a < b < r@.len() implies (#[trigger] r@[a]).idx <= (
            #[trigger] r@[b]).idx && r@[a] != r@[b] by {
                let x = if a < at {
                    a
                } else {
                    a - 1
                };
                let y = if b < at {
                    b
                } else {
                    b - 1
                };
                if a != at {
                    assert(r@[a] == before[x]);
                    assert(before.contains(before[x]));
                }
                if b != at {
                    assert(r@[b] == before[y]);
                    assert(before.contains(before[y]));
                }
                if a != at && b != at {
                    assert(x < y);
                }
                if a == at {
                    assert(before[at as int].idx > window.idx);
                    assert(before[y].idx >= before[at as int].idx);
                }
            }
        }
    }
    assert(windows@.take(windows@.len() as int) =~= windows@);
    assert(r@.to_set() =~= windows@.to_set());
    r
}

/// The position of the first occurrence of `id`.
fn position(ids: &Vec<VirtualWorkspaceId>, id: VirtualWorkspaceId) -> (r: Option<usize>)
    ensures
        match r {
            Some(i) => crate::manager_state::first_at(ids@, id, i as int),
            None => !ids@.contains(id),
        },
{
    for i in 0..ids.len()
        invariant
            forall|k: int| 0 <= k < i ==> #[trigger] ids@[k] != id,
    {
        if ids[i] == id {
            return Some(i);
        }
    }
    None
}

} // verus!
