//! What the operations of the workspace manager change, and what they leave.
use crate::config::{
    AppWorkspaceRule, LayoutSettings, VirtualWorkspaceSettings, WorkspaceSelector,
};
use crate::ids::{SpaceId, WindowId};
use crate::manager_state::{AppRuleResult, ErrorView, ManagerView};
use crate::window_registry::{WindowRecord, WindowWorkspaceInfo};
use crate::workspace::WorkspaceView;
use crate::workspace_id::VirtualWorkspaceId;
use vstd::prelude::*;

verus! {

/// Two workspaces agree in all but their windows and their focus.
pub open spec fn look_alike(a: WorkspaceView, b: WorkspaceView) -> bool {
    &&& a.name == b.name
    &&& a.space == b.space
    &&& a.layout_system == b.layout_system
    &&& a.layout_mode == b.layout_mode
}

/// What the manager has on record of a window.
pub open spec fn on_record(m: ManagerView, w: WindowId) -> WindowRecord {
    match m.registry {
        Some(registry) if registry.windows.contains_key(w) => registry.windows[w],
        _ => WindowRecord {
            state: None,
            workspace: None,
            rule_floating: false,
            last_rule_decision: false,
        },
    }
}

/// The window is on record as one of that workspace.
pub open spec fn is_on_record_in(m: ManagerView, w: WindowId, id: VirtualWorkspaceId) -> bool {
    on_record(m, w).workspace matches Some(info) && info.workspace_id == id
}

/// What the window server says is the same.
pub open spec fn servers_agree(m: ManagerView, next: ManagerView) -> bool {
    match (m.registry, next.registry) {
        (Some(before), Some(after)) => after.servers == before.servers,
        (None, Some(after)) => after.servers.dom() =~= Set::empty(),
        _ => m.registry == next.registry,
    }
}

/// Nothing but the workspaces and the registry has changed, and of the registry
/// only what is on record of one window.
pub open spec fn only_concerns(m: ManagerView, next: ManagerView, w: WindowId) -> bool {
    &&& next == (ManagerView { workspaces: next.workspaces, registry: next.registry, ..m })
    &&& servers_agree(m, next)
    &&& forall|v: WindowId| v != w ==> #[trigger] on_record(next, v) == on_record(m, v)
}

/// A window that is assigned to a workspace is then in it and in no other. The
/// workspace that it is on record for no longer has its focus on it. The other
/// windows stay where they are, and no workspace changes in name, space or
/// layout. The window keeps its state and what rules have said of it.
pub proof fn law_assignment_changes_one_window(
    m: ManagerView,
    space: SpaceId,
    w: WindowId,
    id: VirtualWorkspaceId,
)
    requires
        m.is_consistent(),
        m.workspaces.contains_key(id),
        m.workspaces[id].space == space,
    ensures
        ({
            let next = m.assign(space, w, id);
            &&& only_concerns(m, next, w)
            &&& on_record(next, w) == (WindowRecord {
                workspace: Some(WindowWorkspaceInfo { space, workspace_id: id }),
                ..on_record(m, w)
            })
            &&& next.workspaces.dom() =~= m.workspaces.dom()
            &&& forall|k: VirtualWorkspaceId| #[trigger]
                m.workspaces.contains_key(k) ==> {
                    &&& look_alike(m.workspaces[k], next.workspaces[k])
                    &&& next.workspaces[k].windows.contains(w) <==> k == id
                    &&& forall|v: WindowId|
                        v != w ==> (#[trigger] next.workspaces[k].windows.contains(v)
                            <==> m.workspaces[k].windows.contains(v))
                    &&& next.workspaces[k].last_focused == if is_on_record_in(m, w, k)
                        && m.workspaces[k].last_focused == Some(w) {
                        None
                    } else {
                        m.workspaces[k].last_focused
                    }
                }
        }),
{
    let next = m.assign(space, w, id);
    assert forall|k: VirtualWorkspaceId| #[trigger]
        m.workspaces.contains_key(k) implies (next.workspaces[k].windows.contains(w) <==> k
        == id) by {
        if m.workspaces[k].windows.contains(w) {
            assert(m.holds(k, w));
        }
    }
}

/// A window that is removed is in no workspace, and no workspace that had it has
/// its focus on it. Of what is on record only its state is left. The other
/// windows stay where they are, and no workspace changes in name, space or
/// layout.
pub proof fn law_removal_changes_one_window(m: ManagerView, w: WindowId)
    requires
        m.is_consistent(),
    ensures
        ({
            let next = m.without_window(w);
            &&& only_concerns(m, next, w)
            &&& on_record(next, w) == (WindowRecord {
                state: on_record(m, w).state,
                workspace: None,
                rule_floating: false,
                last_rule_decision: false,
            })
            &&& next.registry matches Some(registry) && (registry.windows.contains_key(w)
                <==> on_record(m, w).state is Some)
            &&& next.workspaces.dom() =~= m.workspaces.dom()
            &&& forall|k: VirtualWorkspaceId| #[trigger]
                m.workspaces.contains_key(k) ==> {
                    &&& look_alike(m.workspaces[k], next.workspaces[k])
                    &&& forall|v: WindowId| #[trigger]
                        next.workspaces[k].windows.contains(v) <==> v != w
                            && m.workspaces[k].windows.contains(v)
                    &&& next.workspaces[k].last_focused == if (is_on_record_in(m, w, k)
                        || on_record(m, w).workspace is None) && m.workspaces[k].last_focused
                        == Some(w) {
                        None
                    } else {
                        m.workspaces[k].last_focused
                    }
                }
        }),
{
    let next = m.without_window(w);
    assert forall|k: VirtualWorkspaceId, v: WindowId| #[trigger]
        m.workspaces.contains_key(k) implies (#[trigger] next.workspaces[k].windows.contains(v)
        <==> v != w && m.workspaces[k].windows.contains(v)) by {
        if m.workspaces[k].windows.contains(w) {
            assert(m.holds(k, w));
        }
    }
}

/// To make a workspace active sets the one that was active before it behind it,
/// and changes nothing else.
pub proof fn law_activation_remembers_the_one_before(
    m: ManagerView,
    space: SpaceId,
    id: VirtualWorkspaceId,
)
    ensures
        ({
            let next = m.with_active(space, id);
            &&& next == (ManagerView { active: next.active, ..m })
            &&& next.active.contains_key(space)
            &&& next.active[space].1 == id
            &&& next.active[space].0 == if m.active.contains_key(space) {
                Some(m.active[space].1)
            } else {
                None
            }
            &&& next.active_in(space) == Some(id)
            &&& next.last_in(space) == m.active_in(space)
            &&& forall|other: SpaceId|
                other != space ==> (#[trigger] next.active.contains_key(other)
                    <==> m.active.contains_key(other)) && next.active[other] == m.active[other]
        }),
{
}

/// The workspace that windows go to by default is the active one while it
/// exists. Otherwise it is the first of the space, which becomes active with
/// none before it. Without such a workspace there is no default one, and the
/// space has no active workspace any more.
pub proof fn law_default_workspace_is_active_or_first(m: ManagerView, space: SpaceId)
    ensures
        ({
            let (next, r) = m.default_choice(space);
            let is_active_there = m.active.contains_key(space) && m.workspaces.contains_key(
                m.active[space].1,
            );
            let is_first_there = m.by_space.contains_key(space) && m.by_space[space].len() > 0
                && m.workspaces.contains_key(m.by_space[space][0])
                && m.workspaces[m.by_space[space][0]].space == space;
            &&& is_active_there ==> next == m && r == Ok::<VirtualWorkspaceId, ErrorView>(
                m.active[space].1,
            )
            &&& !is_active_there && is_first_there ==> {
                &&& r == Ok::<VirtualWorkspaceId, ErrorView>(m.by_space[space][0])
                &&& next.active.contains_key(space)
                &&& next.active[space] == (None::<VirtualWorkspaceId>, m.by_space[space][0])
            }
            &&& !is_active_there && !is_first_there ==> {
                &&& !next.active.contains_key(space)
                &&& r == Err::<VirtualWorkspaceId, ErrorView>(
                    ErrorView::InconsistentState(
                        if !m.by_space.contains_key(space) || m.by_space[space].len() == 0 {
                            "No workspaces for space"@
                        } else {
                            "Failed to set default workspace as active"@
                        },
                    ),
                )
            }
            &&& next == (ManagerView { active: next.active, ..m })
            &&& forall|other: SpaceId|
                other != space ==> (#[trigger] next.active.contains_key(other)
                    <==> m.active.contains_key(other)) && next.active[other] == m.active[other]
        }),
{
}

/// The workspace of `space` at position `k` has that name, and none before it.
pub open spec fn is_first_of_name(m: ManagerView, space: SpaceId, name: Seq<char>, k: int) -> bool {
    &&& 0 <= k < m.by_space[space].len()
    &&& m.workspaces[m.by_space[space][k]].name == name
    &&& forall|j: int| 0 <= j < k ==> m.workspaces[#[trigger] m.by_space[space][j]].name != name
}

/// `id` is the workspace of `space` that a rule names by its position or its
/// name, or the active one if it names none of them.
pub open spec fn is_named_by(
    m: ManagerView,
    space: SpaceId,
    selector: Option<WorkspaceSelector>,
    id: VirtualWorkspaceId,
) -> bool {
    let ids = m.by_space[space];
    match selector {
        None => id == m.active[space].1,
        Some(WorkspaceSelector::Index(i)) => id == if i < ids.len() {
            ids[i as int]
        } else {
            m.active[space].1
        },
        Some(WorkspaceSelector::Name(name)) => {
            &&& forall|k: int| #[trigger] is_first_of_name(m, space, name@, k) ==> id == ids[k]
            &&& (forall|k: int|
                0 <= k < ids.len() ==> m.workspaces[#[trigger] ids[k]].name != name@) ==> id
                == m.active[space].1
        },
    }
}

proof fn lemma_named_position(m: ManagerView, space: SpaceId, name: Seq<char>)
    requires
        m.is_consistent(),
        m.by_space.contains_key(space),
    ensures
        m.position_of_name(space, name) matches Some(i) ==> is_first_of_name(
            m,
            space,
            name,
            i as int,
        ),
        m.position_of_name(space, name) is None ==> forall|k: int|
            0 <= k < m.by_space[space].len() ==> m.workspaces[#[trigger] m.by_space[space][k]].name
                != name,
{
    crate::consistency::law_listing_is_complete(m, space);
    let ids = m.by_space[space];
    assert(m.listed(space) == ids);
    if m.position_of_name(space, name) is None {
        assert forall|k: int| 0 <= k < ids.len() implies m.workspaces[#[trigger] ids[k]].name
            != name by {
            lemma_none_is_first(m, ids, name, k);
        }
    }
}

proof fn lemma_none_is_first(
    m: ManagerView,
    list: Seq<VirtualWorkspaceId>,
    name: Seq<char>,
    k: int,
)
    requires
        0 <= k < list.len(),
        forall|i: int| !#[trigger] m.first_named(list, name, i),
    ensures
        m.workspaces[list[k]].name != name,
    decreases k,
{
    assert forall|j: int| 0 <= j < k implies m.workspaces[#[trigger] list[j]].name != name by {
        lemma_none_is_first(m, list, name, j);
    }
    assert(!m.first_named(list, name, k));
}

proof fn lemma_target(
    m: ManagerView,
    space: SpaceId,
    rule: AppWorkspaceRule,
)
    requires
        m.is_consistent(),
        m.by_space.contains_key(space),
    ensures
        m.rule_target(space, rule, None).0 == m,
        m.rule_target(space, rule, None).1 matches Ok(id) && is_named_by(
            m,
            space,
            rule.workspace,
            id,
        ) && m.belongs(id, space),
{
    crate::consistency::law_default_workspace_is_the_active_one(m, space);
    crate::consistency::law_listing_is_complete(m, space);
    assert(m.list_is_sound(space));
    let ids = m.by_space[space];
    assert(m.listed(space) == ids);
    let (_, r) = m.rule_target(space, rule, None);
    match rule.workspace {
        Some(WorkspaceSelector::Name(name)) => {
            lemma_named_position(m, space, name@);
            match m.position_of_name(space, name@) {
                Some(i) => {
                    assert(is_first_of_name(m, space, name@, i as int));
                    assert(r == Ok::<VirtualWorkspaceId, ErrorView>(ids[i as int]));
                    assert forall|k: int| #[trigger]
                        is_first_of_name(m, space, name@, k) implies k == i by {
                        if k < i {
                            assert(m.workspaces[ids[k]].name != name@);
                        }
                        if i < k {
                            assert(m.workspaces[ids[i as int]].name != name@);
                        }
                    }
                    assert(m.workspaces[ids[i as int]].name == name@);
                },
                None => {
                    assert forall|k: int| !#[trigger] is_first_of_name(m, space, name@, k) by {}
                },
            }
        },
        _ => {},
    }
}

/// A rule sends a window that is not yet in the space to the workspace that it
/// names, by position or by name, and otherwise to the active one. The window
/// floats if the rule says so.
pub proof fn law_rule_names_the_workspace(
    m: ManagerView,
    w: WindowId,
    space: SpaceId,
    rule: AppWorkspaceRule,
)
    requires
        m.is_consistent(),
        m.by_space.contains_key(space),
        on_record(m, w).workspace matches Some(info) ==> info.space != space,
        rule.manage,
    ensures
        ({
            let (next, r) = m.assigned_by_rule(w, space, Some(rule));
            &&& r matches Ok(AppRuleResult::Managed(a)) && {
                &&& is_named_by(m, space, rule.workspace, a.workspace_id)
                &&& a.floating == rule.floating
                &&& a.prev_rule_decision == on_record(m, w).last_rule_decision
                &&& on_record(next, w) == (WindowRecord {
                    workspace: Some(
                        WindowWorkspaceInfo { space, workspace_id: a.workspace_id },
                    ),
                    rule_floating: rule.floating,
                    ..on_record(m, w)
                })
                &&& forall|k: VirtualWorkspaceId| #[trigger]
                    m.workspaces.contains_key(k) ==> (next.workspaces[k].windows.contains(w)
                        <==> k == a.workspace_id)
            }
            &&& only_concerns(m, next, w)
        }),
{
    lemma_target(m, space, rule);
    assert(m.list_is_sound(space));
    let target = m.rule_target(space, rule, None).1->Ok_0;
    law_assignment_changes_one_window(m, space, w, target);
    let moved = m.assign(space, w, target);
    lemma_noted(moved, w, rule.floating);
}

/// A window to which no rule applies goes to the active workspace, unless it is
/// in the space already, and does not float.
pub proof fn law_without_a_rule_the_active_workspace_is_taken(
    m: ManagerView,
    w: WindowId,
    space: SpaceId,
)
    requires
        m.is_consistent(),
        m.by_space.contains_key(space),
    ensures
        ({
            let (next, r) = m.assigned_by_rule(w, space, None);
            let goes_to = match on_record(m, w).workspace {
                Some(info) if info.space == space => info.workspace_id,
                _ => m.active[space].1,
            };
            &&& r matches Ok(AppRuleResult::Managed(a)) && {
                &&& a.workspace_id == goes_to
                &&& !a.floating
                &&& a.prev_rule_decision == on_record(m, w).last_rule_decision
            }
            &&& on_record(next, w) == (WindowRecord {
                workspace: Some(WindowWorkspaceInfo { space, workspace_id: goes_to }),
                rule_floating: false,
                ..on_record(m, w)
            })
            &&& only_concerns(m, next, w)
        }),
{
    crate::consistency::law_default_workspace_is_the_active_one(m, space);
    assert(m.list_is_sound(space));
    law_assignment_changes_one_window(m, space, w, m.active[space].1);
    lemma_noted(m.assign(space, w, m.active[space].1), w, false);
    lemma_noted(m, w, false);
}

/// A window that is in the space already stays in its workspace, whatever
/// workspace a rule names.
pub proof fn law_rule_moves_no_window_within_a_space(
    m: ManagerView,
    w: WindowId,
    space: SpaceId,
    rule: AppWorkspaceRule,
)
    requires
        m.is_consistent(),
        m.by_space.contains_key(space),
        on_record(m, w).workspace matches Some(info) && info.space == space,
        rule.manage,
    ensures
        ({
            let (next, r) = m.assigned_by_rule(w, space, Some(rule));
            &&& r matches Ok(AppRuleResult::Managed(a)) && {
                &&& Some(WindowWorkspaceInfo { space, workspace_id: a.workspace_id }) == on_record(
                    m,
                    w,
                ).workspace
                &&& a.floating == rule.floating
                &&& a.prev_rule_decision == on_record(m, w).last_rule_decision
            }
            &&& on_record(next, w) == (WindowRecord {
                rule_floating: rule.floating,
                ..on_record(m, w)
            })
            &&& next.workspaces == m.workspaces
            &&& only_concerns(m, next, w)
        }),
{
    crate::consistency::law_default_workspace_is_the_active_one(m, space);
    assert(m.list_is_sound(space));
    crate::consistency::law_listing_is_complete(m, space);
    lemma_noted(m, w, rule.floating);
}

/// A rule that leaves a window unmanaged moves nothing, and the window does not
/// float.
pub proof fn law_unmanaged_window_is_left_where_it_is(
    m: ManagerView,
    w: WindowId,
    space: SpaceId,
    rule: AppWorkspaceRule,
)
    requires
        m.by_space.contains_key(space),
        m.by_space[space].len() > 0,
        !rule.manage,
    ensures
        ({
            let (next, r) = m.assigned_by_rule(w, space, Some(rule));
            &&& r == Ok::<AppRuleResult, ErrorView>(AppRuleResult::Unmanaged)
            &&& next.workspaces == m.workspaces
            &&& on_record(next, w) == (WindowRecord { rule_floating: false, ..on_record(m, w) })
            &&& only_concerns(m, next, w)
        }),
{
    lemma_noted(m, w, false);
}

/// In a space without workspaces no window can be assigned, and nothing changes.
pub proof fn law_space_without_workspaces_takes_no_window(
    m: ManagerView,
    w: WindowId,
    space: SpaceId,
    rule: Option<AppWorkspaceRule>,
)
    requires
        m.by_space.contains_key(space) ==> m.by_space[space].len() == 0,
    ensures
        m.assigned_by_rule(w, space, rule) == (
            m,
            Err::<AppRuleResult, ErrorView>(ErrorView::NoWorkspacesAvailable),
        ),
{
}

proof fn lemma_noted(m: ManagerView, w: WindowId, floating: bool)
    ensures
        ({
            let next = m.with_rule_floating(w, floating);
            &&& next.workspaces == m.workspaces
            &&& only_concerns(m, next, w)
            &&& on_record(next, w) == (WindowRecord { rule_floating: floating, ..on_record(m, w) })
        }),
{
}

/// When the workspaces of a space are moved to another, that one has them in
/// their order and with the same one active and the same one before it, and the
/// space that they come from has none. Each keeps its name, windows, focus and
/// layout. Those that the other space had are gone, and all others stay as they
/// are.
pub proof fn law_remap_moves_one_space(m: ManagerView, p: SpaceId, s: SpaceId)
    requires
        m.is_consistent(),
        p != s,
        m.by_space.contains_key(p),
    ensures
        ({
            let next = m.with_space_renamed(p, s);
            &&& !next.by_space.contains_key(p) && !next.active.contains_key(p)
            &&& next.by_space.contains_key(s) && next.by_space[s] == m.by_space[p]
            &&& next.active.contains_key(s) && next.active[s] == m.active[p]
            &&& forall|o: SpaceId|
                o != p && o != s ==> (#[trigger] next.by_space.contains_key(o)
                    <==> m.by_space.contains_key(o)) && next.by_space[o] == m.by_space[o]
            &&& forall|o: SpaceId|
                o != p && o != s ==> (#[trigger] next.active.contains_key(o)
                    <==> m.active.contains_key(o)) && next.active[o] == m.active[o]
            &&& forall|id: VirtualWorkspaceId| #[trigger]
                next.workspaces.contains_key(id) <==> m.workspaces.contains_key(id)
                    && m.workspaces[id].space != s
            &&& forall|id: VirtualWorkspaceId| #[trigger]
                next.workspaces.contains_key(id) ==> next.workspaces[id] == (WorkspaceView {
                    space: if m.workspaces[id].space == p {
                        s
                    } else {
                        m.workspaces[id].space
                    },
                    ..m.workspaces[id]
                })
        }),
{
    let next = m.with_space_renamed(p, s);
    assert(m.list_is_sound(p));
    assert(m.active.contains_key(p));
    assert forall|id: VirtualWorkspaceId| #[trigger]
        m.workspaces.contains_key(id) implies (m.workspaces[id].space == p <==> m.by_space[p].contains(
        id,
    )) && (m.workspaces[id].space == s <==> m.ids_of(s).contains(id)) by {
        assert(m.ids_of(m.workspaces[id].space).contains(id));
        if m.by_space[p].contains(id) {
            let i = choose|i: int| 0 <= i < m.by_space[p].len() && m.by_space[p][i] == id;
            assert(m.belongs(m.by_space[p][i], p));
        }
        if m.ids_of(s).contains(id) {
            assert(m.list_is_sound(s));
            let i = choose|i: int| 0 <= i < m.ids_of(s).len() && m.ids_of(s)[i] == id;
            assert(m.belongs(m.by_space[s][i], s));
        }
    }
    if next.active.contains_key(s) {
        assert(next.active[s] == m.active[p]);
    }
}

/// When the workspaces of a space are moved to another, so are the records of
/// the windows in them: only the space on record changes, and only where it was
/// the one that they come from.
pub proof fn law_remap_moves_the_records(m: ManagerView, p: SpaceId, s: SpaceId, w: WindowId)
    requires
        p != s,
        m.by_space.contains_key(p),
    ensures
        ({
            let next = m.with_space_renamed(p, s);
            &&& on_record(next, w) == (WindowRecord {
                workspace: match on_record(m, w).workspace {
                    Some(info) => Some(
                        WindowWorkspaceInfo {
                            space: if info.space == p {
                                s
                            } else {
                                info.space
                            },
                            workspace_id: info.workspace_id,
                        },
                    ),
                    None => None,
                },
                ..on_record(m, w)
            })
            &&& servers_agree(m, next)
        }),
{
}

/// When the workspaces of a space are moved to another, their floating windows
/// keep their positions, those of the other space are forgotten, and those of
/// all other spaces are untouched.
pub proof fn law_remap_moves_the_positions(
    m: ManagerView,
    p: SpaceId,
    s: SpaceId,
    o: SpaceId,
    id: VirtualWorkspaceId,
)
    requires
        p != s,
        o != p,
        o != s,
        m.by_space.contains_key(p),
    ensures
        ({
            let next = m.with_space_renamed(p, s);
            &&& !next.floating.contains_key((p, id))
            &&& next.floating.contains_key((s, id)) <==> m.floating.contains_key((p, id))
            &&& m.floating.contains_key((p, id)) ==> next.floating[(s, id)] == m.floating[(p, id)]
            &&& next.floating.contains_key((o, id)) <==> m.floating.contains_key((o, id))
            &&& m.floating.contains_key((o, id)) ==> next.floating[(o, id)] == m.floating[(o, id)]
        }),
{
}

/// A space without workspaces has none to move, and a space that is moved to
/// itself stays as it is. Where there are some to move, the settings stay.
pub proof fn law_remap_of_nothing_changes_nothing(m: ManagerView, p: SpaceId, s: SpaceId)
    ensures
        p == s || !m.by_space.contains_key(p) ==> m.with_space_renamed(p, s) == m,
        ({
            let next = m.with_space_renamed(p, s);
            next == (ManagerView {
                workspaces: next.workspaces,
                by_space: next.by_space,
                active: next.active,
                floating: next.floating,
                registry: next.registry,
                ..m
            })
        }),
{
}

/// The manager goes by the given settings. The default workspace is held to the
/// number of workspaces that a space starts with: at least one, at most 32.
pub open spec fn goes_by(
    m: ManagerView,
    config: VirtualWorkspaceSettings,
    layout_settings: LayoutSettings,
) -> bool {
    &&& m.rules == config.app_rules@
    &&& m.workspace_rules == config.workspace_rules@
    &&& m.auto_back_and_forth == config.workspace_auto_back_and_forth
    &&& m.default_mode == layout_settings.mode
    &&& m.layout_settings == layout_settings
    &&& m.default_count == config.default_workspace_count
    &&& m.default_names.len() == config.workspace_names@.len()
    &&& forall|i: int|
        0 <= i < m.default_names.len() ==> #[trigger] m.default_names[i]
            == config.workspace_names@[i]@
    &&& m.default_workspace <= config.default_workspace
    &&& m.default_workspace < 32
    &&& config.default_workspace_count == 0 ==> m.default_workspace == 0
    &&& config.default_workspace_count > 0 ==> m.default_workspace < config.default_workspace_count
    &&& m.default_workspace < config.default_workspace ==> m.default_workspace == 31
        || m.default_workspace + 1 == config.default_workspace_count
        || config.default_workspace_count == 0
}

/// A new manager goes by its settings and has nothing else yet.
pub proof fn law_new_manager_goes_by_its_settings(
    config: VirtualWorkspaceSettings,
    layout_settings: LayoutSettings,
)
    ensures
        ({
            let m = ManagerView::with_config(config, layout_settings);
            &&& goes_by(m, config, layout_settings)
            &&& m.workspaces.dom() =~= Set::empty()
            &&& m.by_space.dom() =~= Set::empty()
            &&& m.active.dom() =~= Set::empty()
            &&& m.floating.dom() =~= Set::empty()
            &&& m.counter == 1
            &&& m.registry matches Some(registry) && registry.windows.dom() =~= Set::empty()
                && registry.servers.dom() =~= Set::empty()
        }),
{
}

/// After new settings the manager goes by them. Workspaces, windows and what is
/// active stay as they are.
pub proof fn law_new_settings_are_gone_by(
    m: ManagerView,
    config: VirtualWorkspaceSettings,
    layout_settings: LayoutSettings,
)
    ensures
        ({
            let next = m.with_settings(config, layout_settings);
            &&& goes_by(next, config, layout_settings)
            &&& next.workspaces == m.workspaces
            &&& next.by_space == m.by_space
            &&& next.active == m.active
            &&& next.floating == m.floating
            &&& next.counter == m.counter
            &&& next.registry == m.registry
        }),
{
}

/// The workspace is empty and as the settings of `m` ask for it at position `k`
/// of `space`: under the name that they give for that position, or else under a
/// number from `low` on and below `high`.
pub open spec fn is_added(
    w: WorkspaceView,
    m: ManagerView,
    space: SpaceId,
    k: int,
    low: nat,
    high: nat,
) -> bool {
    if k < m.default_names.len() {
        crate::manager_laws::is_new_workspace(w, m, space, k, m.default_names[k])
    } else {
        exists|n: nat|
            low <= n < high && #[trigger] crate::manager_laws::is_new_workspace(
                w,
                m,
                space,
                k,
                "Workspace "@ + crate::text::decimal(n),
            )
    }
}

/// `next` has the lists and workspaces of `m`, and each workspace that a list has
/// got more is as the settings of `m` ask for it.
pub open spec fn gains_as_asked(m: ManagerView, next: ManagerView) -> bool {
    &&& next.by_space.dom() =~= m.by_space.dom()
    &&& m.counter <= next.counter
    &&& next.default_names == m.default_names
    &&& next.workspace_rules == m.workspace_rules
    &&& next.default_mode == m.default_mode
    &&& next.layout_settings == m.layout_settings
    &&& forall|id: VirtualWorkspaceId| #[trigger]
        m.workspaces.contains_key(id) ==> next.workspaces.contains_key(id)
            && next.workspaces[id] == m.workspaces[id]
    &&& forall|space: SpaceId| #[trigger]
        m.by_space.contains_key(space) ==> m.by_space[space].is_prefix_of(next.by_space[space])
    &&& forall|space: SpaceId, k: int|
        #![trigger next.by_space[space][k]]
        m.by_space.contains_key(space) && m.by_space[space].len() <= k
            < next.by_space[space].len() ==> next.workspaces.contains_key(next.by_space[space][k])
            && is_added(
            next.workspaces[next.by_space[space][k]],
            m,
            space,
            k,
            m.counter,
            next.counter,
        )
}

proof fn lemma_gains_twice(a: ManagerView, b: ManagerView, c: ManagerView)
    requires
        gains_as_asked(a, b),
        gains_as_asked(b, c),
    ensures
        gains_as_asked(a, c),
{
    assert forall|id: VirtualWorkspaceId| #[trigger]
        a.workspaces.contains_key(id) implies c.workspaces.contains_key(id) && c.workspaces[id]
        == a.workspaces[id] by {
        assert(b.workspaces.contains_key(id));
    }
    assert forall|space: SpaceId| #[trigger]
        a.by_space.contains_key(space) implies a.by_space[space].is_prefix_of(
        c.by_space[space],
    ) by {
        assert(b.by_space.contains_key(space));
        assert(b.by_space[space].is_prefix_of(c.by_space[space]));
        assert forall|i: int| 0 <= i < a.by_space[space].len() implies a.by_space[space][i]
            == c.by_space[space][i] by {
            assert(a.by_space[space][i] == b.by_space[space][i]);
            assert(b.by_space[space][i] == c.by_space[space][i]);
        }
        assert(a.by_space[space] =~= c.by_space[space].subrange(
            0,
            a.by_space[space].len() as int,
        ));
    }
    assert forall|space: SpaceId, k: int|
        #![trigger c.by_space[space][k]]
        a.by_space.contains_key(space) && a.by_space[space].len() <= k
            < c.by_space[space].len() implies c.workspaces.contains_key(c.by_space[space][k])
        && is_added(
        c.workspaces[c.by_space[space][k]],
        a,
        space,
        k,
        a.counter,
        c.counter,
    ) by {
        assert(b.by_space.contains_key(space));
        let id = c.by_space[space][k];
        if k < b.by_space[space].len() {
            assert(b.by_space[space].is_prefix_of(c.by_space[space]));
            assert(b.by_space[space][k] == id);
            assert(is_added(b.workspaces[id], a, space, k, a.counter, b.counter));
            assert(c.workspaces[id] == b.workspaces[id]);
            lemma_added_within(
                b.workspaces[id],
                a,
                a,
                space,
                k,
                a.counter,
                b.counter,
                a.counter,
                c.counter,
            );
        } else {
            assert(is_added(c.workspaces[id], b, space, k, b.counter, c.counter));
            lemma_added_within(
                c.workspaces[id],
                b,
                a,
                space,
                k,
                b.counter,
                c.counter,
                a.counter,
                c.counter,
            );
        }
    }
}

proof fn lemma_added_within(
    w: WorkspaceView,
    m: ManagerView,
    like: ManagerView,
    space: SpaceId,
    k: int,
    low: nat,
    high: nat,
    lower: nat,
    higher: nat,
)
    requires
        is_added(w, m, space, k, low, high),
        lower <= low,
        high <= higher,
        like.default_names == m.default_names,
        like.workspace_rules == m.workspace_rules,
        like.default_mode == m.default_mode,
        like.layout_settings == m.layout_settings,
    ensures
        is_added(w, like, space, k, lower, higher),
{
    if k >= m.default_names.len() {
        let n = choose|n: nat|
            low <= n < high && #[trigger] crate::manager_laws::is_new_workspace(
                w,
                m,
                space,
                k,
                "Workspace "@ + crate::text::decimal(n),
            );
        assert(lower <= n < higher && crate::manager_laws::is_new_workspace(
            w,
            like,
            space,
            k,
            "Workspace "@ + crate::text::decimal(n),
        ));
    }
}

proof fn lemma_extended_as_asked(m: ManagerView, space: SpaceId, ids: Seq<VirtualWorkspaceId>)
    requires
        m.by_space.contains_key(space),
        m.can_extend(space, ids),
    ensures
        gains_as_asked(m, m.extended(space, ids)),
    decreases ids.len(),
{
    if ids.len() > 0 {
        let before = m.extended(space, ids.drop_last());
        lemma_extended_as_asked(m, space, ids.drop_last());
        assert(before.by_space.dom().contains(space));
        let id = ids.last();
        let next = before.extended_by(space, id);
        assert(next == m.extended(space, ids));
        crate::manager_laws::law_added_workspace_is_as_asked_for(before, space, id);
        let k = before.by_space[space].len() as int;
        assert(next.by_space[space] == before.by_space[space].push(id));
        assert(next.by_space.dom() =~= before.by_space.dom());
        assert forall|o: SpaceId, j: int|
            #![trigger next.by_space[o][j]]
            before.by_space.contains_key(o) && before.by_space[o].len() <= j
                < next.by_space[o].len() implies next.workspaces.contains_key(next.by_space[o][j])
            && is_added(
            next.workspaces[next.by_space[o][j]],
            before,
            o,
            j,
            before.counter,
            next.counter,
        ) by {
            if o != space {
                assert(next.by_space[o] == before.by_space[o]);
            }
            assert(j == k);
            if k >= before.default_names.len() {
                assert(next.counter == before.counter + 1);
                assert(crate::manager_laws::is_new_workspace(
                    next.workspaces[id],
                    before,
                    space,
                    k,
                    "Workspace "@ + crate::text::decimal(before.counter),
                ));
            }
        }
        assert forall|o: SpaceId| #[trigger]
            before.by_space.contains_key(o) implies before.by_space[o].is_prefix_of(
            next.by_space[o],
        ) by {
            assert(before.by_space[o] =~= next.by_space[o].subrange(
                0,
                before.by_space[o].len() as int,
            ));
        }
        lemma_gains_twice(m, before, next);
    } else {
        assert(m.extended(space, ids) == m);
        lemma_gains_nothing(m);
    }
}

proof fn lemma_gains_nothing(m: ManagerView)
    ensures
        gains_as_asked(m, m),
{
    assert forall|o: SpaceId| #[trigger]
        m.by_space.contains_key(o) implies m.by_space[o].is_prefix_of(m.by_space[o]) by {
        assert(m.by_space[o] =~= m.by_space[o].subrange(0, m.by_space[o].len() as int));
    }
}

proof fn lemma_filled_as_asked(
    m: ManagerView,
    order: Seq<SpaceId>,
    added: Seq<Seq<VirtualWorkspaceId>>,
)
    requires
        forall|i: int| 0 <= i < order.len() ==> m.by_space.contains_key(#[trigger] order[i]),
        m.can_fill(order, added),
    ensures
        gains_as_asked(m, m.filled(order, added)),
    decreases order.len(),
{
    if order.len() > 0 {
        let first = order.drop_last();
        assert forall|i: int| 0 <= i < first.len() implies m.by_space.contains_key(
            #[trigger] first[i],
        ) by {
            assert(first[i] == order[i]);
        }
        lemma_filled_as_asked(m, first, added.drop_last());
        let before = m.filled(first, added.drop_last());
        assert(m.by_space.contains_key(order[order.len() - 1]));
        assert(before.by_space.dom().contains(order.last()));
        lemma_extended_as_asked(before, order.last(), added.last());
        lemma_gains_twice(m, before, m.filled(order, added));
    } else {
        assert(m.filled(order, added) == m);
        lemma_gains_nothing(m);
    }
}

/// Workspaces that new settings bring to a space stand behind those that it has,
/// which stay as they are. Each is empty, and its name and its layout are those
/// that the new settings ask for at its position. Where they give no name, it is
/// numbered, on from the numbers that were given out before.
pub proof fn law_new_settings_add_workspaces_as_asked(
    m: ManagerView,
    config: VirtualWorkspaceSettings,
    layout_settings: LayoutSettings,
    order: Seq<SpaceId>,
    added: Seq<Seq<VirtualWorkspaceId>>,
    space: SpaceId,
    k: int,
)
    requires
        m.is_consistent(),
        order.no_duplicates(),
        order.to_set() == m.by_space.dom(),
        m.with_settings(config, layout_settings).can_fill(order, added),
        m.by_space.contains_key(space),
    ensures
        ({
            let next = m.with_settings(config, layout_settings).filled(order, added);
            let had = m.by_space[space].len();
            let wanted = config.default_workspace_count;
            &&& had >= wanted && had >= 1 ==> next.by_space[space] == m.by_space[space]
            &&& had < wanted <= 32 ==> next.by_space[space].len() == wanted
            &&& wanted > 32 ==> next.by_space[space].len() == 32
            &&& 0 <= k < had ==> {
                &&& next.by_space[space][k] == m.by_space[space][k]
                &&& next.workspaces[m.by_space[space][k]] == m.workspaces[m.by_space[space][k]]
            }
            &&& had <= k < next.by_space[space].len() ==> {
                let w = next.workspaces[next.by_space[space][k]];
                &&& w.space == space
                &&& forall|x: WindowId| !#[trigger] w.windows.contains(x)
                &&& w.last_focused is None
                &&& crate::manager_laws::is_mode_asked_for(
                    w.layout_mode,
                    config.workspace_rules@,
                    layout_settings.mode,
                    k,
                    w.name,
                )
                &&& crate::manager_laws::fits_mode(w.layout_system, w.layout_mode)
                &&& k < config.workspace_names@.len() ==> w.name == config.workspace_names@[k]@
                &&& k >= config.workspace_names@.len() ==> exists|n: nat|
                    m.counter <= n < next.counter && w.name == "Workspace "@
                        + #[trigger] crate::text::decimal(n)
            }
        }),
{
    let set = m.with_settings(config, layout_settings);
    let next = set.filled(order, added);
    assert forall|i: int| 0 <= i < order.len() implies set.by_space.contains_key(
        #[trigger] order[i],
    ) by {
        assert(order.to_set().contains(order[i]));
    }
    lemma_filled_as_asked(set, order, added);
    crate::consistency::law_settings_update_keeps_consistency(
        m,
        config,
        layout_settings,
        order,
        added,
    );
    assert(m.list_is_sound(space));
    assert(next.by_space.dom().contains(space));
    let ids = m.by_space[space];
    assert(set.by_space[space].is_prefix_of(next.by_space[space]));
    assert(next.ids_of(space).len() == crate::consistency::more_of(
        m.ids_of(space).len(),
        crate::manager_state::start_count(config.default_workspace_count as nat),
    ));
    if ids.len() >= config.default_workspace_count {
        assert(next.by_space[space] =~= ids);
    }
    if 0 <= k < ids.len() {
        assert(next.by_space[space][k] == ids[k]);
        assert(m.belongs(ids[k], space));
        assert(set.workspaces.contains_key(ids[k]));
    }
    if ids.len() <= k < next.by_space[space].len() {
        let id = next.by_space[space][k];
        let w = next.workspaces[id];
        assert(is_added(w, set, space, k, set.counter, next.counter));
        if k >= config.workspace_names@.len() {
            let n = choose|n: nat|
                set.counter <= n < next.counter && #[trigger] crate::manager_laws::is_new_workspace(
                    w,
                    set,
                    space,
                    k,
                    "Workspace "@ + crate::text::decimal(n),
                );
            assert(w.name == "Workspace "@ + crate::text::decimal(n));
        }
    }
}

} // verus!
