//! The state of the workspace manager, and what each operation makes of it.
use crate::config::{
    AppWorkspaceRule, LayoutMode, LayoutSettings, VirtualWorkspaceSettings, WorkspaceLayoutRule,
    WorkspaceSelector,
};
use crate::ids::{SpaceId, WindowId};
use crate::window::Frame;
use crate::window_registry::{RegistryView, WindowRecord, WindowWorkspaceInfo};
use crate::workspace::WorkspaceView;
use crate::workspace_id::VirtualWorkspaceId;
use vstd::prelude::*;
use vstd::std_specs::cmp::PartialEqSpecImpl;

verus! {

/// The most workspaces that a space is given.
pub const MAX_WORKSPACES: usize = 32;

/// Why an operation on workspaces failed.
#[derive(Debug)]
pub enum WorkspaceError {
    NoWorkspacesAvailable,
    AssignmentFailed,
    InvalidWorkspaceId(VirtualWorkspaceId),
    InvalidWorkspaceIndex(usize),
    InconsistentState(String),
}

/// An error, with its text.
pub enum ErrorView {
    NoWorkspacesAvailable,
    AssignmentFailed,
    InvalidWorkspaceId(VirtualWorkspaceId),
    InvalidWorkspaceIndex(usize),
    InconsistentState(Seq<char>),
}

impl View for WorkspaceError {
    type V = ErrorView;

    open spec fn view(&self) -> ErrorView {
        match self {
            WorkspaceError::NoWorkspacesAvailable => ErrorView::NoWorkspacesAvailable,
            WorkspaceError::AssignmentFailed => ErrorView::AssignmentFailed,
            WorkspaceError::InvalidWorkspaceId(id) => ErrorView::InvalidWorkspaceId(*id),
            WorkspaceError::InvalidWorkspaceIndex(index) => ErrorView::InvalidWorkspaceIndex(
                *index,
            ),
            WorkspaceError::InconsistentState(text) => ErrorView::InconsistentState(text@),
        }
    }
}

impl Clone for WorkspaceError {
    fn clone(&self) -> (r: Self)
        ensures
            r == *self,
    {
        match self {
            WorkspaceError::NoWorkspacesAvailable => WorkspaceError::NoWorkspacesAvailable,
            WorkspaceError::AssignmentFailed => WorkspaceError::AssignmentFailed,
            WorkspaceError::InvalidWorkspaceId(id) => WorkspaceError::InvalidWorkspaceId(*id),
            WorkspaceError::InvalidWorkspaceIndex(index) => WorkspaceError::InvalidWorkspaceIndex(
                *index,
            ),
            WorkspaceError::InconsistentState(text) => WorkspaceError::InconsistentState(
                text.clone(),
            ),
        }
    }
}

impl PartialEq for WorkspaceError {
    fn eq(&self, other: &Self) -> (r: bool) {
        match (self, other) {
            (WorkspaceError::NoWorkspacesAvailable, WorkspaceError::NoWorkspacesAvailable) => true,
            (WorkspaceError::AssignmentFailed, WorkspaceError::AssignmentFailed) => true,
            (WorkspaceError::InvalidWorkspaceId(a), WorkspaceError::InvalidWorkspaceId(b)) => *a
                == *b,
            (
                WorkspaceError::InvalidWorkspaceIndex(a),
                WorkspaceError::InvalidWorkspaceIndex(b),
            ) => *a == *b,
            (WorkspaceError::InconsistentState(a), WorkspaceError::InconsistentState(b)) => *a
                == *b,
            _ => false,
        }
    }
}

impl PartialEqSpecImpl for WorkspaceError {
    open spec fn obeys_eq_spec() -> bool {
        true
    }

    open spec fn eq_spec(&self, other: &Self) -> bool {
        self@ == other@
    }
}

impl Eq for WorkspaceError {

}

pub open spec fn outcome<T>(r: Result<T, WorkspaceError>) -> Result<T, ErrorView> {
    match r {
        Ok(value) => Ok(value),
        Err(e) => Err(e@),
    }
}

/// The workspace of a window that is managed, and what the rules say of it.
#[derive(Debug, Clone, Copy)]
pub struct AppRuleAssignment {
    pub workspace_id: VirtualWorkspaceId,
    pub floating: bool,
    pub prev_rule_decision: bool,
}

/// What the app rules make of a window.
#[derive(Debug, Clone, Copy)]
pub enum AppRuleResult {
    Managed(AppRuleAssignment),
    Unmanaged,
}

/// The contents of a workspace manager.
#[verifier::ext_equal]
pub struct ManagerView {
    pub workspaces: Map<VirtualWorkspaceId, WorkspaceView>,
    /// The workspaces of each space that has any, in order.
    pub by_space: Map<SpaceId, Seq<VirtualWorkspaceId>>,
    /// Of each space, the workspace before the active one and the active one.
    pub active: Map<SpaceId, (Option<VirtualWorkspaceId>, VirtualWorkspaceId)>,
    pub floating: Map<(SpaceId, VirtualWorkspaceId), Map<WindowId, Frame>>,
    /// The number in the name of the next workspace without a name of its own.
    pub counter: nat,
    pub rules: Seq<AppWorkspaceRule>,
    pub default_count: nat,
    pub default_names: Seq<Seq<char>>,
    pub default_workspace: nat,
    pub auto_back_and_forth: bool,
    pub workspace_rules: Seq<WorkspaceLayoutRule>,
    pub default_mode: LayoutMode,
    pub layout_settings: LayoutSettings,
    pub registry: Option<RegistryView>,
}

/// How many workspaces a space starts with.
pub open spec fn start_count(configured: nat) -> nat {
    if configured < 1 {
        1
    } else if configured > MAX_WORKSPACES {
        MAX_WORKSPACES as nat
    } else {
        configured
    }
}

/// The default workspace, held to those that there are.
pub open spec fn default_position(configured_workspace: nat, configured_count: nat) -> nat {
    if configured_workspace < start_count(configured_count) {
        configured_workspace
    } else {
        (start_count(configured_count) - 1) as nat
    }
}

pub open spec fn text_views(texts: Seq<String>) -> Seq<Seq<char>> {
    texts.map_values(|text: String| text@)
}

pub open spec fn name_view(name: Option<String>) -> Option<Seq<char>> {
    match name {
        Some(text) => Some(text@),
        None => None,
    }
}

/// The name of the workspace that is numbered `n`.
pub open spec fn numbered_name(n: nat) -> Seq<char> {
    "Workspace "@ + crate::text::decimal(n)
}

pub open spec fn selects(selector: WorkspaceSelector, index: nat, name: Seq<char>) -> bool {
    match selector {
        WorkspaceSelector::Index(i) => i == index,
        WorkspaceSelector::Name(n) => n@ == name,
    }
}

/// The layout of the last rule that selects the workspace; `default` where
/// none does.
pub open spec fn mode_by_rules(
    rules: Seq<WorkspaceLayoutRule>,
    default: LayoutMode,
    index: nat,
    name: Seq<char>,
) -> LayoutMode
    decreases rules.len(),
{
    if rules.len() == 0 {
        default
    } else if selects(rules.last().workspace, index, name) {
        rules.last().layout
    } else {
        mode_by_rules(rules.drop_last(), default, index, name)
    }
}

/// Which way to go through a list of workspaces.
#[derive(Clone, Copy, Debug, PartialEq, Eq, Structural)]
pub enum Direction {
    Left,
    Right,
}

impl Direction {
    /// The position next to `i` of `n`, with the ends joined.
    pub open spec fn stepped(self, i: nat, n: nat) -> nat {
        match self {
            Direction::Right => if i + 1 < n {
                i + 1
            } else {
                0
            },
            Direction::Left => if i > 0 {
                (i - 1) as nat
            } else {
                (n - 1) as nat
            },
        }
    }

    pub fn step(self, i: usize, n: usize) -> (r: usize)
        requires
            i < n,
        ensures
            r == self.stepped(i as nat, n as nat),
            r < n,
    {
        match self {
            Direction::Right => {
                if i + 1 < n {
                    i + 1
                } else {
                    0
                }
            },
            Direction::Left => {
                if i > 0 {
                    i - 1
                } else {
                    n - 1
                }
            },
        }
    }
}

/// The windows stand by ascending index.
pub open spec fn ascending(windows: Seq<WindowId>) -> bool {
    forall|i: int, j: int|
        0 <= i < j < windows.len() ==> (#[trigger] windows[i]).idx <= (#[trigger] windows[j]).idx
}

/// The positions with more of them stored, one after the other.
pub open spec fn stored(
    positions: Map<WindowId, Frame>,
    more: Seq<(WindowId, Frame)>,
) -> Map<WindowId, Frame>
    decreases more.len(),
{
    if more.len() == 0 {
        positions
    } else {
        stored(positions, more.drop_last()).insert(more.last().0, more.last().1)
    }
}

/// `id` stands at `i` in the list, and nowhere before.
pub open spec fn first_at(ids: Seq<VirtualWorkspaceId>, id: VirtualWorkspaceId, i: int) -> bool {
    0 <= i < ids.len() && ids[i] == id && forall|k: int| 0 <= k < i ==> #[trigger] ids[k] != id
}

/// There is one first occurrence.
pub proof fn lemma_first_at(ids: Seq<VirtualWorkspaceId>, id: VirtualWorkspaceId, i: int, j: int)
    requires
        first_at(ids, id, i),
    ensures
        first_at(ids, id, j) ==> i == j,
{
    if first_at(ids, id, j) && i < j {
        assert(ids[i] != id);
    }
    if first_at(ids, id, j) && j < i {
        assert(ids[j] != id);
    }
}

/// The settings that hold where nothing else is said.
pub open spec fn are_standard(settings: VirtualWorkspaceSettings) -> bool {
    &&& settings.default_workspace_count == 4
    &&& settings.workspace_names@ == Seq::<String>::empty()
    &&& settings.default_workspace == 0
    &&& !settings.workspace_auto_back_and_forth
    &&& settings.app_rules@ == Seq::<AppWorkspaceRule>::empty()
    &&& settings.workspace_rules@ == Seq::<WorkspaceLayoutRule>::empty()
}

/// The error of a space that takes no further workspace.
pub open spec fn limit_reached(space: SpaceId) -> ErrorView {
    ErrorView::InconsistentState(
        "Maximum workspace limit ("@ + crate::text::decimal(MAX_WORKSPACES as nat)
            + ") reached for space SpaceId("@ + crate::text::decimal(space.raw as nat) + ")"@,
    )
}

impl ManagerView {
    /// A manager without workspaces.
    pub open spec fn with_config(
        config: VirtualWorkspaceSettings,
        layout_settings: LayoutSettings,
    ) -> Self {
        ManagerView {
            workspaces: Map::empty(),
            by_space: Map::empty(),
            active: Map::empty(),
            floating: Map::empty(),
            counter: 1,
            rules: config.app_rules@,
            default_count: config.default_workspace_count as nat,
            default_names: text_views(config.workspace_names@),
            default_workspace: default_position(
                config.default_workspace as nat,
                config.default_workspace_count as nat,
            ),
            auto_back_and_forth: config.workspace_auto_back_and_forth,
            workspace_rules: config.workspace_rules@,
            default_mode: layout_settings.mode,
            layout_settings,
            registry: Some(RegistryView::empty()),
        }
    }

    /// A workspace added at the end of those of a space, under its own name or
    /// else under the next number.
    pub open spec fn with_created(
        self,
        space: SpaceId,
        id: VirtualWorkspaceId,
        name: Option<Seq<char>>,
    ) -> Self {
        let ids = self.ids_of(space);
        let text = match name {
            Some(text) => text,
            None => numbered_name(self.counter),
        };
        ManagerView {
            workspaces: self.workspaces.insert(id, self.new_workspace(space, ids.len(), text)),
            by_space: self.by_space.insert(space, ids.push(id)),
            counter: if name is Some {
                self.counter
            } else {
                self.counter + 1
            },
            ..self
        }
    }

    pub open spec fn mode_for(self, index: nat, name: Seq<char>) -> LayoutMode {
        mode_by_rules(self.workspace_rules, self.default_mode, index, name)
    }

    /// A new workspace without windows, at position `index` of its space.
    pub open spec fn new_workspace(self, space: SpaceId, index: nat, name: Seq<char>) -> WorkspaceView {
        WorkspaceView::fresh(name, space, self.mode_for(index, name), self.layout_settings)
    }

    /// The name that a space gives its workspace number `index` at the start.
    pub open spec fn start_name(self, index: nat) -> Seq<char> {
        if index < self.default_names.len() {
            self.default_names[index as int]
        } else {
            numbered_name(index + 1)
        }
    }

    /// `ids` are distinct and none of them is taken.
    pub open spec fn are_free(self, ids: Seq<VirtualWorkspaceId>) -> bool {
        ids.no_duplicates() && forall|i: int|
            0 <= i < ids.len() ==> !self.workspaces.contains_key(#[trigger] ids[i])
    }

    /// The workspaces, with the ones that a space starts with under `ids`.
    pub open spec fn with_start_workspaces(
        self,
        space: SpaceId,
        ids: Seq<VirtualWorkspaceId>,
    ) -> Map<VirtualWorkspaceId, WorkspaceView>
        decreases ids.len(),
    {
        if ids.len() == 0 {
            self.workspaces
        } else {
            let index = (ids.len() - 1) as nat;
            self.with_start_workspaces(space, ids.drop_last()).insert(
                ids.last(),
                self.new_workspace(space, index, self.start_name(index)),
            )
        }
    }

    /// The state once `space` has got the workspaces `ids`, with the default one
    /// active.
    pub open spec fn with_space(self, space: SpaceId, ids: Seq<VirtualWorkspaceId>) -> Self {
        let position = if self.default_workspace < ids.len() {
            self.default_workspace as int
        } else {
            ids.len() - 1
        };
        ManagerView {
            workspaces: self.with_start_workspaces(space, ids),
            by_space: self.by_space.insert(space, ids),
            active: self.active.insert(space, (None, ids[position])),
            ..self
        }
    }

    /// `next` is the state once `space` has workspaces: this one, where it has;
    /// otherwise this one with new workspaces for it.
    pub open spec fn starts_space(self, next: Self, space: SpaceId) -> bool {
        if self.by_space.contains_key(space) {
            next == self
        } else {
            exists|ids: Seq<VirtualWorkspaceId>| #[trigger]
                self.are_free(ids) && ids.len() == start_count(self.default_count) && next
                    == self.with_space(space, ids)
        }
    }

    /// `space` has its workspaces, or there is room for them.
    pub open spec fn has_room(self, space: SpaceId) -> bool {
        self.by_space.contains_key(space) || self.workspaces.len() + MAX_WORKSPACES
            <= crate::slots::SLOT_LIMIT
    }

    /// There is room for `n` more workspaces, and there are numbers to name them.
    pub open spec fn has_spare_room(self, n: nat) -> bool {
        self.workspaces.len() + n <= crate::slots::SLOT_LIMIT && self.counter + n <= usize::MAX
    }

    /// The workspaces of a space, in order.
    pub open spec fn ids_of(self, space: SpaceId) -> Seq<VirtualWorkspaceId> {
        if self.by_space.contains_key(space) {
            self.by_space[space]
        } else {
            Seq::empty()
        }
    }

    pub open spec fn active_in(self, space: SpaceId) -> Option<VirtualWorkspaceId> {
        if self.active.contains_key(space) {
            Some(self.active[space].1)
        } else {
            None
        }
    }

    pub open spec fn last_in(self, space: SpaceId) -> Option<VirtualWorkspaceId> {
        if self.active.contains_key(space) {
            self.active[space].0
        } else {
            None
        }
    }

    /// The workspace exists and belongs to `space`.
    pub open spec fn belongs(self, workspace_id: VirtualWorkspaceId, space: SpaceId) -> bool {
        self.workspaces.contains_key(workspace_id) && self.workspaces[workspace_id].space == space
    }

    pub open spec fn with_active(self, space: SpaceId, workspace_id: VirtualWorkspaceId) -> Self {
        ManagerView {
            active: self.active.insert(space, (self.active_in(space), workspace_id)),
            ..self
        }
    }

    /// The workspace changed by `f`, where it exists.
    pub open spec fn with_workspace(
        self,
        workspace_id: VirtualWorkspaceId,
        f: spec_fn(WorkspaceView) -> WorkspaceView,
    ) -> Self {
        if self.workspaces.contains_key(workspace_id) {
            ManagerView {
                workspaces: self.workspaces.insert(workspace_id, f(self.workspaces[workspace_id])),
                ..self
            }
        } else {
            self
        }
    }

    /// The window out of the given workspace.
    pub open spec fn without_member(self, workspace_id: VirtualWorkspaceId, window_id: WindowId) -> Self {
        self.with_workspace(workspace_id, |w: WorkspaceView| w.without_window(window_id))
    }

    pub open spec fn with_member(self, workspace_id: VirtualWorkspaceId, window_id: WindowId) -> Self {
        self.with_workspace(workspace_id, |w: WorkspaceView| w.with_window(window_id))
    }

    pub open spec fn with_registry(self, registry: RegistryView) -> Self {
        ManagerView { registry: Some(registry), ..self }
    }

    /// The registry; the empty one where none is attached.
    pub open spec fn records(self) -> RegistryView {
        match self.registry {
            Some(registry) => registry,
            None => RegistryView::empty(),
        }
    }

    pub open spec fn with_rule_floating(self, window_id: WindowId, value: bool) -> Self {
        self.with_registry(
            self.records().settle_window(
                window_id,
                WindowRecord { rule_floating: value, ..self.records().window(window_id) },
            ),
        )
    }

    /// The window moved from the workspace that the registry gives into another.
    pub open spec fn with_assignment(
        self,
        space: SpaceId,
        window_id: WindowId,
        workspace_id: VirtualWorkspaceId,
    ) -> Self {
        let out = match self.records().workspace_of(window_id) {
            Some(info) => self.without_member(info.workspace_id, window_id),
            None => self,
        };
        out.with_member(workspace_id, window_id).with_registry(
            self.records().put_window(
                window_id,
                WindowRecord {
                    workspace: Some(WindowWorkspaceInfo { space, workspace_id }),
                    ..self.records().window(window_id)
                },
            ),
        )
    }

    /// The state after a request to assign a window: refused where the
    /// workspace is not one of `space`.
    pub open spec fn assign(
        self,
        space: SpaceId,
        window_id: WindowId,
        workspace_id: VirtualWorkspaceId,
    ) -> Self {
        if self.belongs(workspace_id, space) {
            self.with_assignment(space, window_id, workspace_id)
        } else {
            self
        }
    }

    /// The workspace that windows of `space` go to, and the state with it: the
    /// active one where it exists, otherwise the first one, which becomes active.
    pub open spec fn default_choice(self, space: SpaceId) -> (Self, Result<
        VirtualWorkspaceId,
        ErrorView,
    >) {
        match self.active_in(space) {
            Some(id) if self.workspaces.contains_key(id) => (self, Ok(id)),
            _ => {
                let cleared = ManagerView { active: self.active.remove(space), ..self };
                let ids = self.ids_of(space);
                if ids.len() == 0 {
                    (cleared, Err(ErrorView::InconsistentState("No workspaces for space"@)))
                } else if self.belongs(ids[0], space) {
                    (cleared.with_active(space, ids[0]), Ok(ids[0]))
                } else {
                    (
                        cleared,
                        Err(
                            ErrorView::InconsistentState(
                                "Failed to set default workspace as active"@,
                            ),
                        ),
                    )
                }
            },
        }
    }

    /// The workspaces of a space that exist, in order.
    pub open spec fn listed(self, space: SpaceId) -> Seq<VirtualWorkspaceId> {
        self.ids_of(space).filter(|id: VirtualWorkspaceId| self.workspaces.contains_key(id))
    }

    /// Workspace `i` of the list is the first one of that name.
    pub open spec fn first_named(self, list: Seq<VirtualWorkspaceId>, name: Seq<char>, i: int) -> bool {
        &&& 0 <= i < list.len()
        &&& self.workspaces[list[i]].name == name
        &&& forall|k: int| 0 <= k < i ==> self.workspaces[#[trigger] list[k]].name != name
    }

    /// The position of the first workspace of that name.
    pub open spec fn position_of_name(self, space: SpaceId, name: Seq<char>) -> Option<nat> {
        let list = self.listed(space);
        if exists|i: int| #[trigger] self.first_named(list, name, i) {
            Some((choose|i: int| #[trigger] self.first_named(list, name, i)) as nat)
        } else {
            None
        }
    }

    /// The position that a selector gives, where it gives one.
    pub open spec fn selected_position(self, space: SpaceId, selector: WorkspaceSelector) -> Option<
        nat,
    > {
        match selector {
            WorkspaceSelector::Index(i) => Some(i as nat),
            WorkspaceSelector::Name(name) => self.position_of_name(space, name@),
        }
    }

    /// The workspace that a rule sends a window to, and the state with it.
    pub open spec fn rule_target(
        self,
        space: SpaceId,
        rule: AppWorkspaceRule,
        existing: Option<VirtualWorkspaceId>,
    ) -> (Self, Result<VirtualWorkspaceId, ErrorView>) {
        let position = match rule.workspace {
            Some(selector) => self.selected_position(space, selector),
            None => None,
        };
        match position {
            Some(i) => if i < self.ids_of(space).len() && i < self.listed(space).len() {
                (self, Ok(self.listed(space)[i as int]))
            } else {
                self.default_choice(space)
            },
            None => match existing {
                Some(id) => (self, Ok(id)),
                None => self.default_choice(space),
            },
        }
    }

    /// The window assigned to the default workspace, not floating.
    pub open spec fn assigned_by_default(self, window_id: WindowId, space: SpaceId) -> (
        Self,
        Result<VirtualWorkspaceId, ErrorView>,
    ) {
        match self.default_choice(space) {
            (next, Ok(id)) => if next.belongs(id, space) {
                (
                    next.with_assignment(space, window_id, id).with_rule_floating(window_id, false),
                    Ok(id),
                )
            } else {
                (next, Err(ErrorView::AssignmentFailed))
            },
            (next, Err(e)) => (next, Err(e)),
        }
    }

    pub open spec fn managed(
        self,
        window_id: WindowId,
        workspace_id: VirtualWorkspaceId,
        floating: bool,
    ) -> AppRuleResult {
        AppRuleResult::Managed(
            AppRuleAssignment {
                workspace_id,
                floating,
                prev_rule_decision: self.records().window(window_id).last_rule_decision,
            },
        )
    }

    /// A window to which no rule applies, or none that could be followed: it
    /// stays where it is, or goes to the default workspace.
    pub open spec fn assigned_without_rule(self, window_id: WindowId, space: SpaceId) -> (
        Self,
        Result<AppRuleResult, ErrorView>,
    ) {
        match self.records().workspace_in(space, window_id) {
            Some(id) => (
                self.with_rule_floating(window_id, false),
                Ok(self.managed(window_id, id, false)),
            ),
            None => match self.assigned_by_default(window_id, space) {
                (next, Ok(id)) => (next, Ok(self.managed(window_id, id, false))),
                (next, Err(e)) => (next, Err(e)),
            },
        }
    }

    /// What is made of a window of `space`, to which `rule` applies.
    pub open spec fn assigned_by_rule(
        self,
        window_id: WindowId,
        space: SpaceId,
        rule: Option<AppWorkspaceRule>,
    ) -> (Self, Result<AppRuleResult, ErrorView>) {
        let existing = self.records().workspace_in(space, window_id);
        if self.ids_of(space).len() == 0 {
            (self, Err(ErrorView::NoWorkspacesAvailable))
        } else {
            match rule {
                None => self.assigned_without_rule(window_id, space),
                Some(rule) => if !rule.manage {
                    (self.with_rule_floating(window_id, false), Ok(AppRuleResult::Unmanaged))
                } else {
                    match (self.rule_target(space, rule, existing), existing) {
                        ((next, Err(e)), _) => (next, Err(e)),
                        ((next, Ok(_)), Some(id)) => (
                            next.with_rule_floating(window_id, rule.floating),
                            Ok(self.managed(window_id, id, rule.floating)),
                        ),
                        ((next, Ok(target)), None) => if next.belongs(target, space) {
                            (
                                next.with_assignment(space, window_id, target).with_rule_floating(
                                    window_id,
                                    rule.floating,
                                ),
                                Ok(self.managed(window_id, target, rule.floating)),
                            )
                        } else {
                            next.assigned_without_rule(window_id, space)
                        },
                    }
                },
            }
        }
    }

    /// `list` names the workspaces of `space` that exist, in order.
    pub open spec fn lists(self, space: SpaceId, list: Seq<(VirtualWorkspaceId, String)>) -> bool {
        &&& list.map_values(|entry: (VirtualWorkspaceId, String)| entry.0) == self.listed(space)
        &&& forall|i: int|
            0 <= i < list.len() ==> (#[trigger] list[i]).1@ == self.workspaces[list[i].0].name
    }

    /// The workspaces of `space` that exist and, where `occupied` is asked for,
    /// have windows.
    pub open spec fn filtered(self, space: SpaceId, occupied: bool) -> Seq<VirtualWorkspaceId> {
        self.ids_of(space).filter(self.can_be_stepped_to(occupied))
    }

    /// Holds of a workspace that exists and, where `occupied` is asked for, has
    /// windows.
    pub open spec fn can_be_stepped_to(self, occupied: bool) -> spec_fn(VirtualWorkspaceId) -> bool {
        |id: VirtualWorkspaceId|
            self.workspaces.contains_key(id) && !(occupied && self.workspaces[id].windows.len()
                == 0)
    }

    /// The first workspace with windows, of `n` workspaces from position `i` on
    /// in direction `dir`.
    pub open spec fn next_occupied(
        self,
        list: Seq<VirtualWorkspaceId>,
        i: nat,
        dir: Direction,
        n: nat,
    ) -> Option<VirtualWorkspaceId>
        decreases n,
    {
        if n == 0 {
            None
        } else if self.workspaces.contains_key(list[i as int])
            && self.workspaces[list[i as int]].windows.len() != 0 {
            Some(list[i as int])
        } else {
            self.next_occupied(list, dir.stepped(i, list.len()), dir, (n - 1) as nat)
        }
    }

    /// The workspace one step from `current` among those of `space`, where
    /// empty ones are skipped if `occupied`.
    pub open spec fn stepped_from(
        self,
        space: SpaceId,
        current: VirtualWorkspaceId,
        occupied: bool,
        dir: Direction,
    ) -> Option<VirtualWorkspaceId> {
        let base = if occupied {
            self.filtered(space, true)
        } else {
            self.ids_of(space)
        };
        let existing = self.filtered(space, false);
        if base.contains(current) {
            let position = choose|i: int| #[trigger] first_at(base, current, i);
            Some(base[dir.stepped(position as nat, base.len()) as int])
        } else if base.len() > 0 && existing.contains(current) {
            let position = choose|i: int| #[trigger] first_at(existing, current, i);
            let next = dir.stepped(position as nat, existing.len());
            if occupied {
                self.next_occupied(existing, next, dir, existing.len())
            } else {
                Some(existing[next as int])
            }
        } else {
            None
        }
    }

    /// The registry after a window has lost its assignment and what rules said
    /// of it.
    pub open spec fn released(records: RegistryView, window_id: WindowId) -> RegistryView {
        records.settle_window(
            window_id,
            WindowRecord { state: records.window(window_id).state, ..WindowRecord::blank() },
        )
    }

    /// The window out of the workspace that it is assigned to, or, where it is
    /// assigned to none, out of every workspace.
    pub open spec fn without_window(self, window_id: WindowId) -> Self {
        let out = match self.records().workspace_of(window_id) {
            Some(info) => self.without_member(info.workspace_id, window_id),
            None => ManagerView {
                workspaces: self.workspaces.map_values(
                    |w: WorkspaceView| w.without_window(window_id),
                ),
                ..self
            },
        };
        out.with_registry(Self::released(self.records(), window_id))
    }

    /// The windows out of the workspaces that they are assigned to, one after
    /// the other.
    pub open spec fn without_windows(self, windows: Seq<WindowId>) -> Self
        decreases windows.len(),
    {
        if windows.len() == 0 {
            self
        } else {
            self.without_windows(windows.drop_last()).without_window(windows.last())
        }
    }

    /// The workspaces of `old_space` moved to `new_space`, in place of those
    /// that were there.
    pub open spec fn with_space_renamed(self, old_space: SpaceId, new_space: SpaceId) -> Self {
        if old_space == new_space || !self.by_space.contains_key(old_space) {
            self
        } else {
            let ids = self.by_space[old_space];
            let rest = self.by_space.remove(new_space).remove(old_space);
            ManagerView {
                workspaces: Map::new(
                    |id: VirtualWorkspaceId|
                        self.workspaces.contains_key(id) && !(self.ids_of(new_space).contains(id)
                            && self.workspaces[id].space == new_space),
                    |id: VirtualWorkspaceId|
                        if ids.contains(id) {
                            WorkspaceView { space: new_space, ..self.workspaces[id] }
                        } else {
                            self.workspaces[id]
                        },
                ),
                by_space: if ids.len() == 0 {
                    rest
                } else {
                    rest.insert(new_space, ids)
                },
                active: if self.active.contains_key(old_space) {
                    self.active.remove(old_space).insert(new_space, self.active[old_space])
                } else {
                    self.active.remove(new_space)
                },
                floating: crate::floating::with_space_moved(self.floating, old_space, new_space),
                registry: Some(self.records().with_space_renamed(old_space, new_space)),
                ..self
            }
        }
    }

    /// The remembered positions of the floating windows of a workspace.
    pub open spec fn positions_of(self, space: SpaceId, workspace_id: VirtualWorkspaceId) -> Map<
        WindowId,
        Frame,
    > {
        if self.floating.contains_key((space, workspace_id)) {
            self.floating[(space, workspace_id)]
        } else {
            Map::empty()
        }
    }

    pub open spec fn with_positions(
        self,
        space: SpaceId,
        workspace_id: VirtualWorkspaceId,
        positions: Map<WindowId, Frame>,
    ) -> Self {
        ManagerView {
            floating: self.floating.insert((space, workspace_id), positions),
            ..self
        }
    }

    /// Holds of a workspace of `space` that is not active and has the window.
    pub open spec fn inactive_holder(self, space: SpaceId, window_id: WindowId) -> spec_fn(
        VirtualWorkspaceId,
    ) -> bool {
        |id: VirtualWorkspaceId|
            self.belongs(id, space) && Some(id) != self.active_in(space)
                && self.workspaces[id].windows.contains(window_id)
    }

    /// The workspaces of `space` that are not active and have the window.
    pub open spec fn inactive_holders(self, space: SpaceId, window_id: WindowId) -> Set<
        VirtualWorkspaceId,
    > {
        self.workspaces.dom().filter(self.inactive_holder(space, window_id))
    }

    /// The workspace exists and has the window.
    pub open spec fn holds(self, id: VirtualWorkspaceId, window_id: WindowId) -> bool {
        self.workspaces.contains_key(id) && self.workspaces[id].windows.contains(window_id)
    }

    /// The workspaces that have the window.
    pub open spec fn holders(self, window_id: WindowId) -> Set<VirtualWorkspaceId> {
        self.workspaces.dom().filter(|id: VirtualWorkspaceId| self.holds(id, window_id))
    }

    /// `locations` names each workspace that has the window once, with its space.
    pub open spec fn locates(
        self,
        window_id: WindowId,
        locations: Seq<(VirtualWorkspaceId, SpaceId)>,
    ) -> bool {
        let ids = locations.map_values(|entry: (VirtualWorkspaceId, SpaceId)| entry.0);
        &&& ids.no_duplicates()
        &&& ids.to_set() == self.holders(window_id)
        &&& forall|i: int|
            0 <= i < locations.len() ==> (#[trigger] locations[i]).1
                == self.workspaces[locations[i].0].space
    }

    /// The settings replaced.
    pub open spec fn with_settings(
        self,
        config: VirtualWorkspaceSettings,
        layout_settings: LayoutSettings,
    ) -> Self {
        ManagerView {
            rules: config.app_rules@,
            default_count: config.default_workspace_count as nat,
            default_names: text_views(config.workspace_names@),
            default_workspace: default_position(
                config.default_workspace as nat,
                config.default_workspace_count as nat,
            ),
            auto_back_and_forth: config.workspace_auto_back_and_forth,
            workspace_rules: config.workspace_rules@,
            default_mode: layout_settings.mode,
            layout_settings,
            ..self
        }
    }

    /// One workspace more at the end of those of a space, under the name that
    /// the settings give for its position or else under the next number.
    pub open spec fn extended_by(self, space: SpaceId, id: VirtualWorkspaceId) -> Self {
        let index = self.ids_of(space).len();
        self.with_created(
            space,
            id,
            if index < self.default_names.len() {
                Some(self.default_names[index as int])
            } else {
                None
            },
        )
    }

    /// Workspaces more at the end of those of a space.
    pub open spec fn extended(self, space: SpaceId, ids: Seq<VirtualWorkspaceId>) -> Self
        decreases ids.len(),
    {
        if ids.len() == 0 {
            self
        } else {
            self.extended(space, ids.drop_last()).extended_by(space, ids.last())
        }
    }

    /// Each of `ids` is free when its turn comes.
    pub open spec fn can_extend(self, space: SpaceId, ids: Seq<VirtualWorkspaceId>) -> bool
        decreases ids.len(),
    {
        ids.len() == 0 || (self.can_extend(space, ids.drop_last()) && !self.extended(
            space,
            ids.drop_last(),
        ).workspaces.contains_key(ids.last()))
    }

    /// The spaces in `order` extended one after the other.
    pub open spec fn filled(
        self,
        order: Seq<SpaceId>,
        added: Seq<Seq<VirtualWorkspaceId>>,
    ) -> Self
        decreases order.len(),
    {
        if order.len() == 0 {
            self
        } else {
            self.filled(order.drop_last(), added.drop_last()).extended(order.last(), added.last())
        }
    }

    /// Each space gets as many workspaces, under free identifiers, as it has
    /// fewer than the settings ask for.
    pub open spec fn can_fill(
        self,
        order: Seq<SpaceId>,
        added: Seq<Seq<VirtualWorkspaceId>>,
    ) -> bool
        decreases order.len(),
    {
        order.len() == added.len() && (order.len() == 0 || {
            let before = self.filled(order.drop_last(), added.drop_last());
            let wanted = start_count(self.default_count);
            let present = before.ids_of(order.last()).len();
            &&& self.can_fill(order.drop_last(), added.drop_last())
            &&& before.can_extend(order.last(), added.last())
            &&& added.last().len() == if present < wanted {
                wanted - present
            } else {
                0
            }
        })
    }
}

} // verus!
