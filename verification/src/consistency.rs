//! What every operation of the workspace manager keeps.
use crate::config::{AppWorkspaceRule, LayoutSettings, VirtualWorkspaceSettings};
use crate::ids::{SpaceId, WindowId};
use crate::manager_state::{ManagerView, MAX_WORKSPACES};
use crate::window_registry::{WindowRecord, WindowWorkspaceInfo};
use crate::workspace::WorkspaceView;
use crate::workspace_id::VirtualWorkspaceId;
use vstd::prelude::*;

verus! {

impl ManagerView {
    /// The list of a space names existing workspaces of that space, each once,
    /// at least one of them and no more than `MAX_WORKSPACES`.
    pub open spec fn list_is_sound(self, space: SpaceId) -> bool {
        let ids = self.by_space[space];
        &&& 0 < ids.len() <= MAX_WORKSPACES
        &&& ids.no_duplicates()
        &&& forall|i: int| 0 <= i < ids.len() ==> self.belongs(#[trigger] ids[i], space)
    }

    /// Each workspace is in the list of its space, and each list is sound.
    pub open spec fn lists_are_sound(self) -> bool {
        &&& forall|space: SpaceId| #[trigger]
            self.by_space.contains_key(space) ==> self.list_is_sound(space)
        &&& forall|id: VirtualWorkspaceId| #[trigger]
            self.workspaces.contains_key(id) ==> self.ids_of(self.workspaces[id].space).contains(
                id,
            )
    }

    /// A window that is in a workspace is assigned to it in the registry.
    pub open spec fn members_are_recorded(self) -> bool {
        forall|id: VirtualWorkspaceId, w: WindowId| #[trigger]
            self.holds(id, w) ==> self.records().workspace_of(w) == Some(
                WindowWorkspaceInfo { space: self.workspaces[id].space, workspace_id: id },
            )
    }

    /// Each space with workspaces has an active one, which is its own, and no
    /// other space has any.
    pub open spec fn active_is_sound(self) -> bool {
        &&& forall|space: SpaceId| #[trigger]
            self.active.contains_key(space) <==> self.by_space.contains_key(space)
        &&& forall|space: SpaceId| #[trigger]
            self.active.contains_key(space) ==> self.belongs(self.active[space].1, space)
    }

    pub open spec fn is_consistent(self) -> bool {
        self.lists_are_sound() && self.members_are_recorded() && self.active_is_sound()
    }
}

/// A new manager is consistent.
pub proof fn law_new_manager_is_consistent(
    config: VirtualWorkspaceSettings,
    layout_settings: LayoutSettings,
)
    ensures
        ManagerView::with_config(config, layout_settings).is_consistent(),
{
}

/// In a consistent manager no window is in two workspaces.
pub proof fn law_window_is_in_one_workspace(
    m: ManagerView,
    a: VirtualWorkspaceId,
    b: VirtualWorkspaceId,
    w: WindowId,
)
    requires
        m.members_are_recorded(),
        m.holds(a, w),
        m.holds(b, w),
    ensures
        a == b,
{
}

/// After a window has been assigned to a workspace it is in that workspace and
/// in no other, the registry says so, and the manager is still consistent. Of
/// other windows nothing changes.
pub proof fn law_assignment_moves_the_window(
    m: ManagerView,
    space: SpaceId,
    w: WindowId,
    id: VirtualWorkspaceId,
)
    requires
        m.is_consistent(),
        m.belongs(id, space),
    ensures
        m.assign(space, w, id).is_consistent(),
        forall|other: VirtualWorkspaceId| #[trigger]
            m.assign(space, w, id).holds(other, w) <==> other == id,
        m.assign(space, w, id).records().workspace_of(w) == Some(
            WindowWorkspaceInfo { space, workspace_id: id },
        ),
        forall|other: VirtualWorkspaceId, v: WindowId|
            v != w ==> (#[trigger] m.assign(space, w, id).holds(other, v) <==> m.holds(other, v)),
        forall|v: WindowId|
            v != w ==> #[trigger] m.assign(space, w, id).records().window(v) == m.records().window(
                v,
            ),
{
    let next = m.assign(space, w, id);
    assert forall|other: VirtualWorkspaceId, v: WindowId| #[trigger]
        next.holds(other, v) <==> if v == w {
            other == id
        } else {
            m.holds(other, v)
        } by {
        if m.holds(other, w) {
            assert(m.records().workspace_of(w) is Some);
        }
    }
    lemma_same_lists(m, next);
}

/// A refused assignment changes nothing.
pub proof fn law_refused_assignment_changes_nothing(
    m: ManagerView,
    space: SpaceId,
    w: WindowId,
    id: VirtualWorkspaceId,
)
    requires
        !m.belongs(id, space),
    ensures
        m.assign(space, w, id) == m,
{
}

/// Two states with the same spaces, lists and active workspaces, whose
/// workspaces are the same but for what is in them, are equally sound.
pub proof fn lemma_same_lists(m: ManagerView, next: ManagerView)
    requires
        m.lists_are_sound(),
        m.active_is_sound(),
        next.by_space == m.by_space,
        next.active == m.active,
        next.workspaces.dom() =~= m.workspaces.dom(),
        forall|id: VirtualWorkspaceId| #[trigger]
            m.workspaces.contains_key(id) ==> next.workspaces[id].space == m.workspaces[id].space,
    ensures
        next.lists_are_sound(),
        next.active_is_sound(),
{
    assert forall|space: SpaceId| #[trigger]
        next.by_space.contains_key(space) implies next.list_is_sound(space) by {
        assert(m.list_is_sound(space));
        let ids = next.by_space[space];
        assert forall|i: int| 0 <= i < ids.len() implies next.belongs(#[trigger] ids[i], space) by {
            assert(m.belongs(ids[i], space));
        }
    }
    assert forall|id: VirtualWorkspaceId| #[trigger]
        next.workspaces.contains_key(id) implies next.ids_of(
        next.workspaces[id].space,
    ).contains(id) by {
        assert(m.workspaces.contains_key(id));
        assert(m.ids_of(m.workspaces[id].space).contains(id));
    }
    assert forall|space: SpaceId| #[trigger] next.active.contains_key(space) implies next.belongs(
        next.active[space].1,
        space,
    ) by {
        assert(m.active.contains_key(space));
        assert(m.belongs(m.active[space].1, space));
    }
}

/// After a window has been removed no workspace has it and it is assigned to
/// none; nothing changes of other windows, and the manager stays consistent.
pub proof fn law_removal_takes_the_window_out(m: ManagerView, w: WindowId)
    requires
        m.is_consistent(),
    ensures
        m.without_window(w).is_consistent(),
        forall|id: VirtualWorkspaceId| !#[trigger] m.without_window(w).holds(id, w),
        m.without_window(w).records().workspace_of(w) is None,
        forall|id: VirtualWorkspaceId, v: WindowId|
            v != w ==> (#[trigger] m.without_window(w).holds(id, v) <==> m.holds(id, v)),
        forall|v: WindowId|
            v != w ==> #[trigger] m.without_window(w).records().window(v) == m.records().window(v),
{
    let next = m.without_window(w);
    assert forall|id: VirtualWorkspaceId, v: WindowId| #[trigger]
        next.holds(id, v) <==> v != w && m.holds(id, v) by {
        if m.holds(id, w) {
            assert(m.records().workspace_of(w) is Some);
        }
    }
    lemma_same_lists(m, next);
}

/// Removing windows one after the other keeps a manager consistent. None of
/// them is in a workspace or assigned to one afterwards, and nothing changes of
/// the others.
pub proof fn law_removals_take_the_windows_out(m: ManagerView, windows: Seq<WindowId>)
    requires
        m.is_consistent(),
    ensures
        m.without_windows(windows).is_consistent(),
        forall|id: VirtualWorkspaceId, w: WindowId| #[trigger]
            m.without_windows(windows).holds(id, w) <==> m.holds(id, w) && !windows.contains(w),
        forall|w: WindowId|
            windows.contains(w) ==> #[trigger] m.without_windows(windows).records().workspace_of(
                w,
            ) is None,
        forall|w: WindowId|
            !windows.contains(w) ==> #[trigger] m.without_windows(windows).records().window(w)
                == m.records().window(w),
    decreases windows.len(),
{
    if windows.len() > 0 {
        let w = windows.last();
        let before = m.without_windows(windows.drop_last());
        law_removals_take_the_windows_out(m, windows.drop_last());
        law_removal_takes_the_window_out(before, w);
        assert(windows =~= windows.drop_last().push(w));
        crate::id_map::lemma_contains_push(windows.drop_last(), w);
        let next = m.without_windows(windows);
        assert forall|id: VirtualWorkspaceId, v: WindowId| #[trigger]
            next.holds(id, v) <==> m.holds(id, v) && !windows.contains(v) by {
            assert(before.holds(id, v) <==> m.holds(id, v) && !windows.drop_last().contains(v));
        }
        assert forall|v: WindowId| windows.contains(v) implies #[trigger] next.records().workspace_of(
            v,
        ) is None by {
            if v != w {
                assert(before.records().workspace_of(v) is None);
                assert(next.records().window(v) == before.records().window(v));
            }
        }
        assert forall|v: WindowId| !windows.contains(v) implies #[trigger] next.records().window(v)
            == m.records().window(v) by {
            assert(before.records().window(v) == m.records().window(v));
        }
    }
}

/// Removing a window right after it was assigned takes the assignment back:
/// every workspace has the windows that it had before, if the window was in
/// none.
pub proof fn law_removal_undoes_assignment(
    m: ManagerView,
    space: SpaceId,
    w: WindowId,
    id: VirtualWorkspaceId,
    other: VirtualWorkspaceId,
    v: WindowId,
)
    requires
        m.is_consistent(),
        m.belongs(id, space),
        m.records().workspace_of(w) is None,
    ensures
        m.assign(space, w, id).without_window(w).holds(other, v) <==> m.holds(other, v),
        m.assign(space, w, id).without_window(w).records().workspace_of(v)
            == m.records().workspace_of(v),
{
    law_assignment_moves_the_window(m, space, w, id);
    let next = m.assign(space, w, id);
    law_removal_takes_the_window_out(next, w);
    if v == w {
        assert(!next.without_window(w).holds(other, w));
        assert(!m.holds(other, w));
    } else {
        assert(next.without_window(w).holds(other, v) <==> next.holds(other, v));
        assert(next.without_window(w).records().window(v) == next.records().window(v));
        assert(next.records().window(v) == m.records().window(v));
    }
}

/// What is under each identifier once a space has got its first workspaces.
pub proof fn lemma_start_workspaces(m: ManagerView, space: SpaceId, ids: Seq<VirtualWorkspaceId>)
    requires
        m.are_free(ids),
    ensures
        forall|id: VirtualWorkspaceId| #[trigger]
            m.with_start_workspaces(space, ids).contains_key(id) <==> m.workspaces.contains_key(id)
                || ids.contains(id),
        forall|id: VirtualWorkspaceId|
            m.workspaces.contains_key(id) ==> #[trigger] m.with_start_workspaces(space, ids)[id]
                == m.workspaces[id],
        forall|i: int|
            0 <= i < ids.len() ==> m.with_start_workspaces(space, ids)[#[trigger] ids[i]]
                == m.new_workspace(space, i as nat, m.start_name(i as nat)),
    decreases ids.len(),
{
    if ids.len() > 0 {
        let before = ids.drop_last();
        assert forall|i: int| 0 <= i < before.len() implies !m.workspaces.contains_key(
            #[trigger] before[i],
        ) by {
            assert(before[i] == ids[i]);
        }
        lemma_start_workspaces(m, space, before);
        assert(ids =~= before.push(ids.last()));
        crate::id_map::lemma_contains_push(before, ids.last());
        assert forall|i: int| 0 <= i < ids.len() implies m.with_start_workspaces(space, ids)[
            #[trigger] ids[i]] == m.new_workspace(space, i as nat, m.start_name(i as nat)) by {
            if i < before.len() {
                assert(before[i] == ids[i]);
                assert(ids[i] != ids.last());
            }
        }
        assert(!m.workspaces.contains_key(ids[ids.len() - 1]));
    }
}

/// Giving a space its workspaces keeps a manager consistent, moves no window
/// and leaves the other spaces alone; the space then has between one and
/// `MAX_WORKSPACES` workspaces if it had none.
pub proof fn law_start_keeps_consistency(m: ManagerView, next: ManagerView, space: SpaceId)
    requires
        m.is_consistent(),
        m.starts_space(next, space),
    ensures
        next.is_consistent(),
        next.by_space.contains_key(space),
        next.registry == m.registry,
        forall|id: VirtualWorkspaceId, w: WindowId| #[trigger] next.holds(id, w) <==> m.holds(id, w),
        forall|other: SpaceId|
            other != space ==> #[trigger] next.ids_of(other) == m.ids_of(other) && next.active_in(
                other,
            ) == m.active_in(other),
        !m.by_space.contains_key(space) ==> 1 <= next.ids_of(space).len() <= MAX_WORKSPACES,
{
    if !m.by_space.contains_key(space) {
        let ids = choose|ids: Seq<VirtualWorkspaceId>| #[trigger]
            m.are_free(ids) && ids.len() == crate::manager_state::start_count(m.default_count)
                && next == m.with_space(space, ids);
        lemma_start_workspaces(m, space, ids);
        assert forall|s: SpaceId| #[trigger] next.by_space.contains_key(s) implies next.list_is_sound(
            s,
        ) by {
            let list = next.by_space[s];
            if s != space {
                assert(m.list_is_sound(s));
            }
            assert forall|i: int| 0 <= i < list.len() implies next.belongs(
                #[trigger] list[i],
                s,
            ) by {
                if s == space {
                    assert(ids.contains(ids[i]));
                } else {
                    assert(m.belongs(list[i], s));
                }
            }
        }
        assert forall|id: VirtualWorkspaceId| #[trigger]
            next.workspaces.contains_key(id) implies next.ids_of(
            next.workspaces[id].space,
        ).contains(id) by {
            if m.workspaces.contains_key(id) {
                assert(next.workspaces[id] == m.workspaces[id]);
                assert(m.ids_of(m.workspaces[id].space).contains(id));
                assert(m.workspaces[id].space != space);
            } else {
                assert(ids.contains(id));
                let i = choose|i: int| 0 <= i < ids.len() && ids[i] == id;
                assert(next.workspaces[ids[i]].space == space);
            }
        }
        assert forall|id: VirtualWorkspaceId, w: WindowId| #[trigger]
            next.holds(id, w) <==> m.holds(id, w) by {
            if m.workspaces.contains_key(id) {
                assert(next.workspaces[id] == m.workspaces[id]);
            } else if ids.contains(id) {
                let i = choose|i: int| 0 <= i < ids.len() && ids[i] == id;
                assert(next.workspaces[ids[i]].windows =~= Set::empty());
            }
        }
        assert forall|id: VirtualWorkspaceId, w: WindowId| #[trigger]
            next.holds(id, w) implies next.records().workspace_of(w) == Some(
            WindowWorkspaceInfo { space: next.workspaces[id].space, workspace_id: id },
        ) by {
            assert(m.holds(id, w));
            assert(next.workspaces[id] == m.workspaces[id]);
        }
        assert forall|s: SpaceId| #[trigger] next.active.contains_key(s) implies next.belongs(
            next.active[s].1,
            s,
        ) by {
            if s == space {
                let position = if m.default_workspace < ids.len() {
                    m.default_workspace as int
                } else {
                    ids.len() - 1
                };
                assert(next.active[s].1 == ids[position]);
                assert(next.belongs(ids[position], space)) by {
                    assert(ids.contains(ids[position]));
                }
            } else {
                assert(m.active.contains_key(s));
                assert(m.belongs(m.active[s].1, s));
            }
        }
    }
}

/// A space that has its workspaces is not given any again.
pub proof fn law_start_happens_once(
    m: ManagerView,
    once: ManagerView,
    twice: ManagerView,
    space: SpaceId,
)
    requires
        m.starts_space(once, space),
        once.starts_space(twice, space),
    ensures
        twice == once,
{
}

/// Creating a workspace in a space that has some, and may have more, keeps a
/// manager consistent, puts the workspace last and empty, and moves no window.
pub proof fn law_creation_keeps_consistency(
    m: ManagerView,
    space: SpaceId,
    id: VirtualWorkspaceId,
    name: Option<Seq<char>>,
)
    requires
        m.is_consistent(),
        m.by_space.contains_key(space),
        m.ids_of(space).len() < MAX_WORKSPACES,
        !m.workspaces.contains_key(id),
    ensures
        m.with_created(space, id, name).is_consistent(),
        m.with_created(space, id, name).ids_of(space) == m.ids_of(space).push(id),
        m.with_created(space, id, name).belongs(id, space),
        forall|other: VirtualWorkspaceId, w: WindowId| #[trigger]
            m.with_created(space, id, name).holds(other, w) <==> m.holds(other, w),
        m.with_created(space, id, name).active == m.active,
{
    let next = m.with_created(space, id, name);
    let ids = m.ids_of(space);
    assert(m.list_is_sound(space));
    assert(!ids.contains(id)) by {
        if ids.contains(id) {
            let i = choose|i: int| 0 <= i < ids.len() && ids[i] == id;
            assert(m.belongs(ids[i], space));
        }
    }
    crate::id_map::lemma_contains_push(ids, id);
    assert forall|s: SpaceId| #[trigger] next.by_space.contains_key(s) implies next.list_is_sound(
        s,
    ) by {
        assert(m.by_space.contains_key(s));
        assert(m.list_is_sound(s));
        let list = next.by_space[s];
        assert forall|i: int| 0 <= i < list.len() implies next.belongs(#[trigger] list[i], s) by {
            if s == space && i == ids.len() {
                assert(list[i] == id);
            } else {
                assert(list[i] == m.by_space[s][i]);
                assert(m.belongs(m.by_space[s][i], s));
            }
        }
    }
    assert forall|other: VirtualWorkspaceId| #[trigger]
        next.workspaces.contains_key(other) implies next.ids_of(
        next.workspaces[other].space,
    ).contains(other) by {
        if other != id {
            assert(m.workspaces.contains_key(other));
            assert(m.ids_of(m.workspaces[other].space).contains(other));
        }
    }
    assert forall|other: VirtualWorkspaceId, w: WindowId| #[trigger]
        next.holds(other, w) <==> m.holds(other, w) by {}
    assert forall|s: SpaceId| #[trigger] next.active.contains_key(s) implies next.belongs(
        next.active[s].1,
        s,
    ) by {
        assert(m.active.contains_key(s));
        assert(m.belongs(m.active[s].1, s));
    }
}

/// Making a workspace active keeps a manager consistent, remembers the one that
/// was active before, and leaves the other spaces and every window alone.
pub proof fn law_activation_keeps_consistency(
    m: ManagerView,
    space: SpaceId,
    id: VirtualWorkspaceId,
    other: SpaceId,
)
    requires
        m.is_consistent(),
        m.belongs(id, space),
        other != space,
    ensures
        m.with_active(space, id).is_consistent(),
        m.with_active(space, id).active_in(space) == Some(id),
        m.with_active(space, id).last_in(space) == m.active_in(space),
        m.with_active(space, id).active_in(other) == m.active_in(other),
        m.with_active(space, id).last_in(other) == m.last_in(other),
        m.with_active(space, id).workspaces == m.workspaces,
        m.with_active(space, id).registry == m.registry,
{
    let next = m.with_active(space, id);
    assert(m.ids_of(m.workspaces[id].space).contains(id));
    assert(m.by_space.contains_key(space));
    assert forall|s: SpaceId| #[trigger] next.by_space.contains_key(s) implies next.list_is_sound(
        s,
    ) by {
        assert(m.list_is_sound(s));
        let list = next.by_space[s];
        assert forall|i: int| 0 <= i < list.len() implies next.belongs(#[trigger] list[i], s) by {
            assert(m.belongs(list[i], s));
        }
    }
    assert forall|i: VirtualWorkspaceId| #[trigger]
        next.workspaces.contains_key(i) implies next.ids_of(next.workspaces[i].space).contains(
        i,
    ) by {
        assert(m.ids_of(m.workspaces[i].space).contains(i));
    }
    assert forall|i: VirtualWorkspaceId, w: WindowId| #[trigger]
        next.holds(i, w) implies next.records().workspace_of(w) == Some(
        WindowWorkspaceInfo { space: next.workspaces[i].space, workspace_id: i },
    ) by {
        assert(m.holds(i, w));
    }
    assert forall|s: SpaceId| #[trigger] next.active.contains_key(s) implies next.belongs(
        next.active[s].1,
        s,
    ) by {
        if s != space {
            assert(m.active.contains_key(s));
            assert(m.belongs(m.active[s].1, s));
        }
    }
}

/// Renaming a workspace, or noting which of its windows had the focus, keeps a
/// manager consistent.
pub proof fn law_labels_keep_consistency(
    m: ManagerView,
    id: VirtualWorkspaceId,
    name: Seq<char>,
    focused: Option<WindowId>,
)
    requires
        m.is_consistent(),
    ensures
        m.with_workspace(id, |w: WorkspaceView| WorkspaceView { name, ..w }).is_consistent(),
        m.with_workspace(
            id,
            |w: WorkspaceView| WorkspaceView { last_focused: focused, ..w },
        ).is_consistent(),
{
    let renamed = m.with_workspace(id, |w: WorkspaceView| WorkspaceView { name, ..w });
    let refocused = m.with_workspace(
        id,
        |w: WorkspaceView| WorkspaceView { last_focused: focused, ..w },
    );
    assert forall|i: VirtualWorkspaceId, w: WindowId| #[trigger]
        renamed.holds(i, w) <==> m.holds(i, w) by {}
    assert forall|i: VirtualWorkspaceId, w: WindowId| #[trigger]
        refocused.holds(i, w) <==> m.holds(i, w) by {}
    lemma_same_lists(m, renamed);
    lemma_same_lists(m, refocused);
}

/// Noting what a rule said of a window keeps a manager consistent and moves no
/// window.
pub proof fn law_rule_notes_keep_consistency(m: ManagerView, w: WindowId, floating: bool)
    requires
        m.is_consistent(),
    ensures
        m.with_rule_floating(w, floating).is_consistent(),
        forall|v: WindowId| #[trigger]
            m.with_rule_floating(w, floating).records().workspace_of(v)
                == m.records().workspace_of(v),
        m.with_rule_floating(w, floating).workspaces == m.workspaces,
{
    let next = m.with_rule_floating(w, floating);
    assert forall|v: WindowId| #[trigger] next.records().workspace_of(v)
        == m.records().workspace_of(v) by {}
    assert forall|i: VirtualWorkspaceId, v: WindowId| #[trigger]
        next.holds(i, v) implies next.records().workspace_of(v) == Some(
        WindowWorkspaceInfo { space: next.workspaces[i].space, workspace_id: i },
    ) by {
        assert(m.holds(i, v));
    }
    lemma_same_lists(m, next);
}

/// In a consistent manager a space with workspaces always has a default one,
/// the active one, and to ask for it changes nothing.
pub proof fn law_default_workspace_is_the_active_one(m: ManagerView, space: SpaceId)
    requires
        m.is_consistent(),
        m.by_space.contains_key(space),
    ensures
        m.default_choice(space) == (
            m,
            Ok::<VirtualWorkspaceId, crate::manager_state::ErrorView>(m.active[space].1),
        ),
        m.belongs(m.active[space].1, space),
{
    assert(m.active.contains_key(space));
    assert(m.belongs(m.active[space].1, space));
}

/// In a consistent manager a window can always be assigned by default in a space
/// with workspaces: it is then in the active workspace and in no other, and does
/// not float. The manager stays consistent, and of other windows nothing
/// changes.
pub proof fn law_default_assignment_goes_to_the_active_workspace(
    m: ManagerView,
    w: WindowId,
    space: SpaceId,
)
    requires
        m.is_consistent(),
        m.by_space.contains_key(space),
    ensures
        ({
            let (next, r) = m.assigned_by_default(w, space);
            &&& next.is_consistent()
            &&& r == Ok::<VirtualWorkspaceId, crate::manager_state::ErrorView>(m.active[space].1)
            &&& forall|id: VirtualWorkspaceId| #[trigger]
                next.holds(id, w) <==> id == m.active[space].1
            &&& next.records().workspace_of(w) == Some(
                WindowWorkspaceInfo { space, workspace_id: m.active[space].1 },
            )
            &&& !next.records().window(w).rule_floating
            &&& forall|id: VirtualWorkspaceId, v: WindowId|
                v != w ==> (#[trigger] next.holds(id, v) <==> m.holds(id, v))
            &&& forall|v: WindowId|
                v != w ==> #[trigger] next.records().window(v) == m.records().window(v)
            &&& next.active == m.active
        }),
{
    let id = m.active[space].1;
    law_default_workspace_is_the_active_one(m, space);
    law_assignment_moves_the_window(m, space, w, id);
    let moved = m.assign(space, w, id);
    law_rule_notes_keep_consistency(moved, w, false);
    lemma_floating_noted(moved, w, false);
    let next = m.assigned_by_default(w, space).0;
    assert(next == moved.with_rule_floating(w, false));
    assert(next.records().workspace_of(w) == moved.records().workspace_of(w));
    assert forall|other: VirtualWorkspaceId| #[trigger] next.holds(other, w) <==> other == id by {
        assert(moved.holds(other, w) <==> other == id);
    }
    assert forall|other: VirtualWorkspaceId, v: WindowId| v != w implies (#[trigger] next.holds(
        other,
        v,
    ) <==> m.holds(other, v)) by {
        assert(moved.holds(other, v) <==> m.holds(other, v));
    }
    assert forall|v: WindowId| v != w implies #[trigger] next.records().window(v)
        == m.records().window(v) by {
        assert(moved.records().window(v) == m.records().window(v));
    }
}

/// Noting the last decision of the rules on a window keeps a manager consistent
/// and moves no window.
pub proof fn law_rule_decisions_keep_consistency(m: ManagerView, w: WindowId, decision: bool)
    requires
        m.is_consistent(),
    ensures
        ({
            let next = m.with_registry(
                m.records().put_window(
                    w,
                    WindowRecord { last_rule_decision: decision, ..m.records().window(w) },
                ),
            );
            &&& next.is_consistent()
            &&& next.workspaces == m.workspaces
            &&& next.records().window(w).last_rule_decision == decision
            &&& forall|v: WindowId| #[trigger]
                next.records().workspace_of(v) == m.records().workspace_of(v)
        }),
{
    let next = m.with_registry(
        m.records().put_window(
            w,
            WindowRecord { last_rule_decision: decision, ..m.records().window(w) },
        ),
    );
    assert forall|i: VirtualWorkspaceId, v: WindowId| #[trigger]
        next.holds(i, v) implies next.records().workspace_of(v) == Some(
        WindowWorkspaceInfo { space: next.workspaces[i].space, workspace_id: i },
    ) by {
        assert(m.holds(i, v));
    }
    lemma_same_lists(m, next);
}

/// In a consistent manager rules can always be followed: a window of a space
/// with workspaces is left unmanaged, or is then in one workspace of that
/// space, the one that is reported.
pub proof fn law_rules_can_be_followed(
    m: ManagerView,
    w: WindowId,
    space: SpaceId,
    rule: Option<AppWorkspaceRule>,
)
    requires
        m.is_consistent(),
        m.by_space.contains_key(space),
        m.records().workspace_in(space, w) matches Some(id) ==> m.holds(id, w),
    ensures
        m.assigned_by_rule(w, space, rule).0.is_consistent(),
        match m.assigned_by_rule(w, space, rule).1 {
            Ok(crate::manager_state::AppRuleResult::Managed(a)) => {
                let next = m.assigned_by_rule(w, space, rule).0;
                &&& next.holds(a.workspace_id, w)
                &&& next.belongs(a.workspace_id, space)
                &&& next.records().workspace_in(space, w) == Some(a.workspace_id)
                &&& next.records().window(w).rule_floating == a.floating
                &&& a.floating == (rule matches Some(r) && r.floating)
                &&& a.prev_rule_decision == m.records().window(w).last_rule_decision
            },
            Ok(crate::manager_state::AppRuleResult::Unmanaged) => rule matches Some(r) && !r.manage,
            Err(_) => false,
        },
{
    let existing = m.records().workspace_in(space, w);
    assert(m.list_is_sound(space));
    law_default_workspace_is_the_active_one(m, space);
    match existing {
        Some(id) => {
            assert(m.holds(id, w));
            assert(m.belongs(id, space));
        },
        None => {},
    }
    let default_id = m.active[space].1;
    law_assignment_moves_the_window(m, space, w, default_id);
    let by_default = m.with_assignment(space, w, default_id);
    assert(by_default == m.assign(space, w, default_id));
    law_rule_notes_keep_consistency(m, w, false);
    law_rule_notes_keep_consistency(by_default, w, false);
    assert(by_default.holds(default_id, w));
    lemma_floating_noted(m, w, false);
    lemma_floating_noted(by_default, w, false);
    if let Some(r) = rule {
        law_rule_notes_keep_consistency(m, w, r.floating);
        lemma_floating_noted(m, w, r.floating);
        match m.rule_target(space, r, existing) {
            (next, Ok(target)) => {
                law_listing_is_complete(m, space);
                let ids = m.ids_of(space);
                assert forall|i: int| 0 <= i < ids.len() implies m.belongs(
                    #[trigger] ids[i],
                    space,
                ) by {
                    assert(m.list_is_sound(space));
                }
                assert(next == m);
                assert(m.belongs(target, space));
                law_assignment_moves_the_window(m, space, w, target);
                let moved = m.with_assignment(space, w, target);
                assert(moved == m.assign(space, w, target));
                law_rule_notes_keep_consistency(moved, w, r.floating);
                lemma_floating_noted(moved, w, r.floating);
                assert(moved.holds(target, w));
            },
            (_, Err(_)) => {},
        }
    }
}

proof fn lemma_floating_noted(m: ManagerView, w: WindowId, floating: bool)
    ensures
        m.with_rule_floating(w, floating).records().window(w).rule_floating == floating,
        forall|id: VirtualWorkspaceId, v: WindowId| #[trigger]
            m.with_rule_floating(w, floating).holds(id, v) <==> m.holds(id, v),
        forall|id: VirtualWorkspaceId, s: SpaceId| #[trigger]
            m.with_rule_floating(w, floating).belongs(id, s) <==> m.belongs(id, s),
{
}

pub proof fn lemma_filter_keeps_all(
    ids: Seq<VirtualWorkspaceId>,
    p: spec_fn(VirtualWorkspaceId) -> bool,
)
    requires
        forall|i: int| 0 <= i < ids.len() ==> p(#[trigger] ids[i]),
    ensures
        ids.filter(p) == ids,
    decreases ids.len(),
{
    reveal(Seq::filter);
    if ids.len() > 0 {
        let before = ids.drop_last();
        assert forall|i: int| 0 <= i < before.len() implies p(#[trigger] before[i]) by {
            assert(before[i] == ids[i]);
        }
        lemma_filter_keeps_all(before, p);
        assert(p(ids[ids.len() - 1]));
        assert(ids =~= before.push(ids.last()));
    }
}

/// In a consistent manager every workspace of a space is listed.
pub proof fn law_listing_is_complete(m: ManagerView, space: SpaceId)
    requires
        m.is_consistent(),
    ensures
        m.listed(space) == m.ids_of(space),
{
    let p = |id: VirtualWorkspaceId| m.workspaces.contains_key(id);
    let ids = m.ids_of(space);
    if m.by_space.contains_key(space) {
        assert(m.list_is_sound(space));
        assert forall|i: int| 0 <= i < ids.len() implies p(#[trigger] ids[i]) by {
            assert(m.belongs(ids[i], space));
        }
    }
    lemma_filter_keeps_all(ids, p);
    assert(m.listed(space) =~= ids.filter(p));
}

/// Moving the workspaces of a space to another keeps a manager consistent. The
/// other space then has exactly those workspaces, in their order and with the
/// windows they had, and the same one of them is active.
pub proof fn law_remap_keeps_consistency(m: ManagerView, old_space: SpaceId, new_space: SpaceId)
    requires
        m.is_consistent(),
    ensures
        m.with_space_renamed(old_space, new_space).is_consistent(),
        old_space != new_space && m.by_space.contains_key(old_space) ==> {
            let next = m.with_space_renamed(old_space, new_space);
            &&& next.ids_of(new_space) == m.ids_of(old_space)
            &&& !next.by_space.contains_key(old_space)
            &&& next.active_in(new_space) == m.active_in(old_space)
            &&& next.last_in(new_space) == m.last_in(old_space)
            &&& forall|id: VirtualWorkspaceId, w: WindowId|
                m.belongs(id, old_space) ==> (#[trigger] next.holds(id, w) <==> m.holds(id, w))
        },
{
    let next = m.with_space_renamed(old_space, new_space);
    if old_space != new_space && m.by_space.contains_key(old_space) {
        let ids = m.by_space[old_space];
        assert(m.list_is_sound(old_space));
        assert forall|id: VirtualWorkspaceId| #[trigger]
            m.workspaces.contains_key(id) implies (m.workspaces[id].space == old_space
            <==> ids.contains(id)) && (m.workspaces[id].space == new_space <==> m.ids_of(
            new_space,
        ).contains(id)) by {
            assert(m.ids_of(m.workspaces[id].space).contains(id));
            if ids.contains(id) {
                let i = choose|i: int| 0 <= i < ids.len() && ids[i] == id;
                assert(m.belongs(ids[i], old_space));
            }
            if m.ids_of(new_space).contains(id) {
                let list = m.ids_of(new_space);
                let i = choose|i: int| 0 <= i < list.len() && list[i] == id;
                assert(m.list_is_sound(new_space));
                assert(m.belongs(list[i], new_space));
            }
        }
        assert forall|s: SpaceId| #[trigger] next.by_space.contains_key(s) implies next.list_is_sound(
            s,
        ) by {
            let list = next.by_space[s];
            if s == new_space {
                assert(list == ids);
                assert forall|i: int| 0 <= i < list.len() implies next.belongs(
                    #[trigger] list[i],
                    s,
                ) by {
                    assert(m.belongs(ids[i], old_space));
                    assert(ids.contains(ids[i]));
                }
            } else {
                assert(m.list_is_sound(s));
                assert forall|i: int| 0 <= i < list.len() implies next.belongs(
                    #[trigger] list[i],
                    s,
                ) by {
                    assert(m.belongs(list[i], s));
                }
            }
        }
        assert forall|id: VirtualWorkspaceId| #[trigger]
            next.workspaces.contains_key(id) implies next.ids_of(
            next.workspaces[id].space,
        ).contains(id) by {
            assert(m.workspaces.contains_key(id));
            assert(m.ids_of(m.workspaces[id].space).contains(id));
        }
        assert forall|id: VirtualWorkspaceId, w: WindowId| #[trigger]
            next.holds(id, w) implies next.records().workspace_of(w) == Some(
            WindowWorkspaceInfo { space: next.workspaces[id].space, workspace_id: id },
        ) by {
            assert(m.workspaces.contains_key(id));
            assert(m.holds(id, w));
        }
        assert forall|s: SpaceId| #[trigger] next.active.contains_key(s) implies next.belongs(
            next.active[s].1,
            s,
        ) by {
            let from = if s == new_space {
                old_space
            } else {
                s
            };
            assert(m.active.contains_key(old_space));
            assert(m.active.contains_key(from));
            assert(m.belongs(m.active[from].1, from));
        }
        assert(m.active.contains_key(old_space));
        assert forall|s: SpaceId| #[trigger]
            next.active.contains_key(s) <==> next.by_space.contains_key(s) by {
            assert(m.active.contains_key(s) <==> m.by_space.contains_key(s));
        }
    }
}

/// `next` has the workspaces of `m`, unchanged, and besides them only empty
/// ones.
pub open spec fn only_gains_empty_workspaces(m: ManagerView, next: ManagerView) -> bool {
    &&& forall|id: VirtualWorkspaceId| #[trigger]
        m.workspaces.contains_key(id) ==> next.workspaces.contains_key(id)
            && next.workspaces[id] == m.workspaces[id]
    &&& forall|id: VirtualWorkspaceId| #[trigger]
        next.workspaces.contains_key(id) && !m.workspaces.contains_key(id)
            ==> next.workspaces[id].windows == Set::<WindowId>::empty()
}

proof fn lemma_settings_keep_consistency(
    m: ManagerView,
    config: VirtualWorkspaceSettings,
    layout_settings: LayoutSettings,
)
    requires
        m.is_consistent(),
    ensures
        m.with_settings(config, layout_settings).is_consistent(),
{
    let next = m.with_settings(config, layout_settings);
    assert forall|id: VirtualWorkspaceId, w: WindowId| #[trigger]
        next.holds(id, w) <==> m.holds(id, w) by {}
    lemma_same_lists(m, next);
}

proof fn lemma_extension_keeps_consistency(
    m: ManagerView,
    space: SpaceId,
    ids: Seq<VirtualWorkspaceId>,
)
    requires
        m.is_consistent(),
        m.by_space.contains_key(space),
        m.ids_of(space).len() + ids.len() <= MAX_WORKSPACES,
        m.can_extend(space, ids),
    ensures
        m.extended(space, ids).is_consistent(),
        m.extended(space, ids).by_space.dom() == m.by_space.dom(),
        m.extended(space, ids).ids_of(space) == m.ids_of(space) + ids,
        forall|other: SpaceId|
            other != space ==> #[trigger] m.extended(space, ids).ids_of(other) == m.ids_of(other),
        m.extended(space, ids).default_count == m.default_count,
        m.extended(space, ids).registry == m.registry,
        m.extended(space, ids).active == m.active,
        forall|id: VirtualWorkspaceId, w: WindowId| #[trigger]
            m.extended(space, ids).holds(id, w) <==> m.holds(id, w),
        only_gains_empty_workspaces(m, m.extended(space, ids)),
    decreases ids.len(),
{
    if ids.len() == 0 {
        assert(m.ids_of(space) + ids =~= m.ids_of(space));
    } else {
        let before = m.extended(space, ids.drop_last());
        lemma_extension_keeps_consistency(m, space, ids.drop_last());
        let index = before.ids_of(space).len();
        let name = if index < before.default_names.len() {
            Some(before.default_names[index as int])
        } else {
            None
        };
        law_creation_keeps_consistency(before, space, ids.last(), name);
        assert(m.extended(space, ids) == before.with_created(space, ids.last(), name));
        assert(m.extended(space, ids).by_space.dom() =~= m.by_space.dom());
        assert(m.extended(space, ids).ids_of(space) =~= m.ids_of(space) + ids);
        assert forall|other: SpaceId| other != space implies #[trigger] m.extended(
            space,
            ids,
        ).ids_of(other) == m.ids_of(other) by {
            assert(before.ids_of(other) == m.ids_of(other));
        }
        assert forall|id: VirtualWorkspaceId, w: WindowId| #[trigger]
            m.extended(space, ids).holds(id, w) <==> m.holds(id, w) by {
            assert(before.holds(id, w) <==> m.holds(id, w));
        }
    }
}

proof fn lemma_filling_keeps_consistency(
    m: ManagerView,
    order: Seq<SpaceId>,
    added: Seq<Seq<VirtualWorkspaceId>>,
)
    requires
        m.is_consistent(),
        order.no_duplicates(),
        forall|i: int| 0 <= i < order.len() ==> m.by_space.contains_key(#[trigger] order[i]),
        m.can_fill(order, added),
    ensures
        m.filled(order, added).is_consistent(),
        m.filled(order, added).by_space.dom() == m.by_space.dom(),
        m.filled(order, added).default_count == m.default_count,
        m.filled(order, added).registry == m.registry,
        m.filled(order, added).active == m.active,
        forall|id: VirtualWorkspaceId, w: WindowId| #[trigger]
            m.filled(order, added).holds(id, w) <==> m.holds(id, w),
        only_gains_empty_workspaces(m, m.filled(order, added)),
        forall|space: SpaceId|
            m.ids_of(space).is_prefix_of(#[trigger] m.filled(order, added).ids_of(space)),
        forall|space: SpaceId|
            !order.contains(space) ==> #[trigger] m.filled(order, added).ids_of(space) == m.ids_of(
                space,
            ),
        forall|space: SpaceId|
            order.contains(space) ==> #[trigger] m.filled(order, added).ids_of(space).len() == if m.ids_of(
                space,
            ).len() < crate::manager_state::start_count(m.default_count) {
                crate::manager_state::start_count(m.default_count)
            } else {
                m.ids_of(space).len()
            },
    decreases order.len(),
{
    if order.len() > 0 {
        let first = order.drop_last();
        let space = order.last();
        let before = m.filled(first, added.drop_last());
        assert forall|i: int| 0 <= i < first.len() implies m.by_space.contains_key(
            #[trigger] first[i],
        ) by {
            assert(first[i] == order[i]);
        }
        lemma_filling_keeps_consistency(m, first, added.drop_last());
        assert(m.by_space.contains_key(order[order.len() - 1]));
        assert(before.by_space.dom().contains(space));
        assert(before.list_is_sound(space));
        lemma_extension_keeps_consistency(before, space, added.last());
        let next = m.filled(order, added);
        assert(next == before.extended(space, added.last()));
        assert(order =~= first.push(space));
        crate::id_map::lemma_contains_push(first, space);
        assert(!first.contains(space));
        assert forall|id: VirtualWorkspaceId, w: WindowId| #[trigger]
            next.holds(id, w) <==> m.holds(id, w) by {
            assert(before.holds(id, w) <==> m.holds(id, w));
        }
        assert forall|s: SpaceId| m.ids_of(s).is_prefix_of(#[trigger] next.ids_of(s)) by {
            assert(m.ids_of(s).is_prefix_of(before.ids_of(s)));
            if s != space {
                assert(next.ids_of(s) == before.ids_of(s));
            }
        }
        assert forall|s: SpaceId| !order.contains(s) implies #[trigger] next.ids_of(s) == m.ids_of(
            s,
        ) by {
            assert(before.ids_of(s) == m.ids_of(s));
        }
        assert forall|s: SpaceId| order.contains(s) implies #[trigger] next.ids_of(s).len()
            == if m.ids_of(s).len() < crate::manager_state::start_count(m.default_count) {
            crate::manager_state::start_count(m.default_count)
        } else {
            m.ids_of(s).len()
        } by {
            if s == space {
                assert(before.ids_of(s) == m.ids_of(s));
            } else {
                assert(first.contains(s));
                assert(next.ids_of(s) == before.ids_of(s));
            }
        }
    }
}

/// The larger of two numbers.
pub open spec fn more_of(a: nat, b: nat) -> nat {
    if a < b {
        b
    } else {
        a
    }
}

/// New settings keep a manager consistent and move no window. No space loses a
/// workspace, and each then has as many as before or as the settings ask for,
/// whichever is more. The workspaces that there were are unchanged, and those
/// that are added are empty.
pub proof fn law_settings_update_keeps_consistency(
    m: ManagerView,
    config: VirtualWorkspaceSettings,
    layout_settings: LayoutSettings,
    order: Seq<SpaceId>,
    added: Seq<Seq<VirtualWorkspaceId>>,
)
    requires
        m.is_consistent(),
        order.no_duplicates(),
        order.to_set() == m.by_space.dom(),
        m.with_settings(config, layout_settings).can_fill(order, added),
    ensures
        ({
            let next = m.with_settings(config, layout_settings).filled(order, added);
            &&& next.is_consistent()
            &&& next.registry == m.registry
            &&& next.active == m.active
            &&& forall|id: VirtualWorkspaceId, w: WindowId| #[trigger]
                next.holds(id, w) <==> m.holds(id, w)
            &&& forall|space: SpaceId| m.ids_of(space).is_prefix_of(#[trigger] next.ids_of(space))
            &&& forall|space: SpaceId|
                m.by_space.contains_key(space) ==> #[trigger] next.ids_of(space).len()
                    == more_of(
                    m.ids_of(space).len(),
                    crate::manager_state::start_count(config.default_workspace_count as nat),
                )
            &&& next.by_space.dom() == m.by_space.dom()
            &&& only_gains_empty_workspaces(m, next)
        }),
{
    let set = m.with_settings(config, layout_settings);
    lemma_settings_keep_consistency(m, config, layout_settings);
    assert forall|i: int| 0 <= i < order.len() implies set.by_space.contains_key(
        #[trigger] order[i],
    ) by {
        assert(order.to_set().contains(order[i]));
    }
    lemma_filling_keeps_consistency(set, order, added);
    let next = set.filled(order, added);
    assert forall|id: VirtualWorkspaceId, w: WindowId| #[trigger]
        next.holds(id, w) <==> m.holds(id, w) by {
        assert(set.holds(id, w) <==> m.holds(id, w));
    }
    assert forall|space: SpaceId| m.ids_of(space).is_prefix_of(#[trigger] next.ids_of(space)) by {
        assert(set.ids_of(space) == m.ids_of(space));
        assert(set.ids_of(space).is_prefix_of(next.ids_of(space)));
    }
    assert forall|space: SpaceId| m.by_space.contains_key(space) implies #[trigger] next.ids_of(
        space,
    ).len() == more_of(
        m.ids_of(space).len(),
        crate::manager_state::start_count(config.default_workspace_count as nat),
    ) by {
        assert(set.ids_of(space) == m.ids_of(space));
        assert(order.to_set().contains(space));
        assert(order.contains(space));
    }
}

} // verus!
