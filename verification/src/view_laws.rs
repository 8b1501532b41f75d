//! What values say to the contracts is what they hold.
use crate::ids::{SpaceId, WindowId};
use crate::manager_state::{ErrorView, ManagerView, WorkspaceError};
use crate::reactor::{ForwardedSpaceState, Reactor, SpaceState, SpaceStep, StepView};
use crate::workspace::WorkspaceView;
use crate::workspace_id::VirtualWorkspaceId;
use vstd::prelude::*;

verus! {

/// A step says exactly what it holds: which spaces, windows, sizes and apps it
/// is about, and which part each of them has in it.
pub proof fn law_step_says_what_it_holds(step: SpaceStep)
    ensures
        match step {
            SpaceStep::PruneDisplayState(kept) => step@ matches StepView::PruneDisplayState(names)
                && names.len() == kept@.len() && forall|i: int|
                0 <= i < names.len() ==> #[trigger] names[i] == kept@[i]@,
            SpaceStep::ClearPendingTargets => step@ is ClearPendingTargets,
            SpaceStep::ExposeAllSpaces => step@ is ExposeAllSpaces,
            SpaceStep::RecomputeActiveSpaces => step@ is RecomputeActiveSpaces,
            SpaceStep::ClearWindowServerInfo => step@ is ClearWindowServerInfo,
            SpaceStep::TryApplyPendingSpaceChange => step@ is TryApplyPendingSpaceChange,
            SpaceStep::NotifySpacesUpdated => step@ is NotifySpacesUpdated,
            SpaceStep::ApplyActiveSpaces(spaces) => step@ == StepView::ApplyActiveSpaces(spaces@),
            SpaceStep::RestoreWindowsAfterFullscreenExit(spaces) => step@
                == StepView::RestoreWindowsAfterFullscreenExit(spaces@),
            SpaceStep::UpdateSpaceDisplay { space: s, display_uuid: name } => {
                step@ matches StepView::UpdateSpaceDisplay { space, display_uuid } && space == s
                    && display_uuid == name@
            },
            SpaceStep::RemapSpace { previous: p, space: s } => {
                step@ matches StepView::RemapSpace { previous, space } && previous == p && space
                    == s
            },
            SpaceStep::ExposeResized { space: s, size: to } => {
                step@ matches StepView::ExposeResized { space, size } && space == s && size == to
            },
            SpaceStep::WindowDisappeared { wsid: w, space: s } => {
                step@ matches StepView::WindowDisappeared { wsid, space } && wsid == w && space
                    == s
            },
            SpaceStep::WindowAppeared { wsid: w, space: s } => {
                step@ matches StepView::WindowAppeared { wsid, space } && wsid == w && space == s
            },
            SpaceStep::FinalizeSpaceChange(spaces) => step@ == StepView::FinalizeSpaceChange(
                spaces@,
            ),
            SpaceStep::ForceRefreshAllWindows => step@ is ForceRefreshAllWindows,
            SpaceStep::UpdateLayoutAfterTopologyChange => step@ is UpdateLayoutAfterTopologyChange,
            SpaceStep::ReconcilePhantomWindows => step@ is ReconcilePhantomWindows,
            SpaceStep::SendLayoutEvent(event) => step@ == StepView::SendLayoutEvent(event),
            SpaceStep::UpdateLayout => step@ is UpdateLayout,
            SpaceStep::SendRequest { pid: p, request: asked } => {
                step@ matches StepView::SendRequest { pid, request } && pid == p && request
                    == asked
            },
            SpaceStep::ReassignWindow { window_id: w, space: s } => {
                step@ matches StepView::ReassignWindow { window_id, space } && window_id == w
                    && space == s
            },
            SpaceStep::QueryWindow { wsid: w, space: s, kind: of } => {
                step@ matches StepView::QueryWindow { wsid, space, kind } && wsid == w && space
                    == s && kind == of
            },
            SpaceStep::UpdateWindowServerInfo(info) => step@ == StepView::UpdateWindowServerInfo(
                info,
            ),
            SpaceStep::AnnounceApp { pid: p } => {
                step@ matches StepView::AnnounceApp { pid } && pid == p
            },
            SpaceStep::ResetDrag => step@ is ResetDrag,
            SpaceStep::RepairSpacesAfterMissionControl => step@ is RepairSpacesAfterMissionControl,
            SpaceStep::RefreshWindowsAfterMissionControl => step@
                is RefreshWindowsAfterMissionControl,
        },
{
}

/// Steps are seen one by one and in their order.
pub proof fn law_steps_are_seen_in_order(steps: Seq<SpaceStep>, i: int)
    requires
        0 <= i < steps.len(),
    ensures
        crate::reactor::steps_view(steps).len() == steps.len(),
        crate::reactor::steps_view(steps)[i] == steps[i]@,
{
}

/// A snapshot says what it holds.
pub proof fn law_snapshot_says_what_it_holds(s: ForwardedSpaceState)
    ensures
        s@.screens == s.screens@,
        s@.fullscreen_spaces == s.fullscreen_spaces@,
        s@.has_seen_display_set == s.has_seen_display_set,
        s@.active_spaces == s.active_spaces@,
        s@.command_space == s.command_space,
        s@.display_space_ids == s.display_space_ids@,
        s@.last_user_space_by_display == s.last_user_space_by_display@,
        s@.space_remaps == s.space_remaps@,
        s@.display_set_changed == s.display_set_changed,
        s@.topology_changed == s.topology_changed,
        s@.allow_space_remap == s.allow_space_remap,
        s@.should_force_refresh_layout == s.should_force_refresh_layout,
        s@.resized_spaces == s.resized_spaces@,
        s@.topology_window_delta is Some <==> s.topology_window_delta is Some,
        s@.topology_window_delta matches Some(seen) ==> {
            let delta = s.topology_window_delta->0;
            &&& seen.epoch == delta.epoch
            &&& seen.flags == delta.flags
            &&& seen.appeared == delta.appeared@
            &&& seen.disappeared == delta.disappeared@
        },
{
}

/// The state that events are decided on says what it holds.
pub proof fn law_state_says_what_it_holds(r: Reactor, s: SpaceState)
    ensures
        s@.screens == s.screens@,
        s@.fullscreen_spaces == s.fullscreen_spaces@,
        s@.has_seen_display_set == s.has_seen_display_set,
        s@.active_spaces == s.active_spaces@,
        s@.command_space == s.command_space,
        s@.display_space_ids == s.display_space_ids@,
        s@.last_user_space_by_display == s.last_user_space_by_display@,
        r@.manager == r.workspaces@,
        r@.spaces == r.space_state@,
        r@.apps == r.apps@,
        r@.pending_targets == r.pending_targets@,
        r@.drag_state == r.drag_state,
        r@.skip_layout_for_window == r.skip_layout_for_window,
        r@.mission_control_active == r.mission_control_active,
        r@.stale_cleanup_state == r.stale_cleanup_state,
        r@.pending_change is Some <==> r.pending_space_change is Some,
        r@.pending_change matches Some(seen) ==> seen == r.pending_space_change->0@,
        forall|space: SpaceId| #[trigger]
            r@.tracks.contains_key(space) <==> r.native_fullscreen_tracks@.contains_key(space),
        forall|space: SpaceId| #[trigger]
            r@.tracks.contains_key(space) ==> r@.tracks[space]
                == r.native_fullscreen_tracks@[space].windows@,
{
}

/// An error says which one it is, and what it is about. A result that is not an
/// error is handed on as it is.
pub proof fn law_error_says_what_it_holds<T>(e: WorkspaceError, value: T)
    ensures
        match e {
            WorkspaceError::NoWorkspacesAvailable => e@ is NoWorkspacesAvailable,
            WorkspaceError::AssignmentFailed => e@ is AssignmentFailed,
            WorkspaceError::InvalidWorkspaceId(id) => e@ == ErrorView::InvalidWorkspaceId(id),
            WorkspaceError::InvalidWorkspaceIndex(i) => e@ == ErrorView::InvalidWorkspaceIndex(i),
            WorkspaceError::InconsistentState(text) => e@ == ErrorView::InconsistentState(text@),
        },
        crate::manager_state::outcome(Ok::<T, WorkspaceError>(value)) == Ok::<T, ErrorView>(value),
        crate::manager_state::outcome(Err::<T, WorkspaceError>(e)) == Err::<T, ErrorView>(e@),
{
}

/// A name that is given is taken as it is.
pub proof fn law_given_name_is_taken(name: Option<String>)
    ensures
        name matches Some(text) ==> crate::manager_state::name_view(name) == Some(text@),
        name is None ==> crate::manager_state::name_view(name) is None,
{
}

/// A change of one workspace changes that one alone, and nothing if it does not
/// exist.
pub proof fn law_change_of_a_workspace_concerns_it_alone(
    m: ManagerView,
    id: VirtualWorkspaceId,
    f: spec_fn(WorkspaceView) -> WorkspaceView,
)
    ensures
        ({
            let next = m.with_workspace(id, f);
            &&& next == (ManagerView { workspaces: next.workspaces, ..m })
            &&& next.workspaces.dom() =~= m.workspaces.dom()
            &&& m.workspaces.contains_key(id) ==> next.workspaces[id] == f(m.workspaces[id])
            &&& forall|k: VirtualWorkspaceId| #[trigger]
                m.workspaces.contains_key(k) && k != id ==> next.workspaces[k] == m.workspaces[k]
        }),
{
}

/// Windows that ascend stand in the order of their index, which no earlier one
/// has higher than a later one.
pub proof fn law_ascending_windows_stand_by_index(windows: Seq<WindowId>, i: int, j: int)
    requires
        crate::manager_state::ascending(windows),
        0 <= i <= j < windows.len(),
    ensures
        windows[i].idx <= windows[j].idx,
{
}

/// In a consistent manager the active workspace of a space has one position in
/// its list.
pub proof fn law_active_workspace_has_a_position(m: ManagerView, space: SpaceId, i: int)
    requires
        m.is_consistent(),
        m.by_space.contains_key(space),
    ensures
        crate::manager_state::first_at(m.by_space[space], m.active[space].1, i) <==> 0 <= i
            < m.by_space[space].len() && m.by_space[space][i] == m.active[space].1,
        m.by_space[space].contains(m.active[space].1),
{
    let ids = m.by_space[space];
    let id = m.active[space].1;
    assert(m.list_is_sound(space));
    assert(m.active.contains_key(space));
    assert(m.workspaces.contains_key(id));
    if 0 <= i < ids.len() && ids[i] == id {
        assert forall|k: int| 0 <= k < i implies #[trigger] ids[k] != id by {}
    }
}

proof fn lemma_no_digits(s: Seq<char>)
    requires
        forall|i: int| 0 <= i < s.len() ==> !crate::text::is_digit(#[trigger] s[i]),
    ensures
        crate::text::number_in(s) == 0,
    decreases s.len(),
{
    if s.len() > 0 {
        lemma_no_digits(s.drop_last());
    }
}

proof fn lemma_number_behind(s: Seq<char>, t: Seq<char>)
    requires
        forall|i: int| 0 <= i < s.len() ==> !crate::text::is_digit(#[trigger] s[i]),
    ensures
        crate::text::number_in(s + t) == crate::text::number_in(t),
    decreases t.len(),
{
    if t.len() > 0 {
        lemma_number_behind(s, t.drop_last());
        assert((s + t).drop_last() =~= s + t.drop_last());
        assert((s + t).last() == t.last());
    } else {
        assert(s + t =~= s);
        lemma_no_digits(s);
    }
}

/// The debug text of an identifier is that of its key in the name of the type,
/// which adds no digit: the number in it is the number in that of the key.
pub proof fn law_identifier_has_the_number_of_its_key(id: VirtualWorkspaceId)
    ensures
        ({
            let key = crate::workspace_id::key_data_text(id.0);
            &&& id.debug_text() == "VirtualWorkspaceId("@ + key + ")"@
            &&& crate::text::number_in(id.debug_text()) == crate::text::number_in(key)
        }),
{
    reveal_strlit("VirtualWorkspaceId(");
    reveal_strlit(")");
    let key = crate::workspace_id::key_data_text(id.0);
    let front = "VirtualWorkspaceId("@ + key;
    assert((front + ")"@).drop_last() =~= front);
    assert((front + ")"@).last() == ')');
    lemma_number_behind("VirtualWorkspaceId("@, key);
}

} // verus!
