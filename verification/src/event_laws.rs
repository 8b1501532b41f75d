//! Laws of the decisions taken on space events.
use crate::ids::{SpaceId, WindowId, WindowServerId};
use crate::manager_state::ManagerView;
use crate::reactor::{
    AppRequest, FullscreenWindowTrack, ObservedWindow, ReactorView, SnapshotView, SpaceEventKind,
    WindowSighting,
};
use crate::window_registry::{RegistryView, WindowWorkspaceInfo};
use crate::workspace_id::VirtualWorkspaceId;
use vstd::prelude::*;

verus! {

/// A window that leaves a space while it is being moved to another keeps all
/// that is on record of it. Where it is assigned to the other space, it stays in
/// the layout, and its app alone is asked about it.
pub proof fn law_stale_disappearance_changes_no_record(
    r: ReactorView,
    wsid: WindowServerId,
    sid: SpaceId,
    seen: WindowSighting,
    w: WindowId,
)
    requires
        r.is_stale(wsid, sid),
        r.records().server(wsid).window_id == Some(w),
    ensures
        r.on_destroyed(wsid, sid, SpaceEventKind::User, seen).0 == r,
        r.assigned_space(w) != Some(sid) ==> r.on_destroyed(
            wsid,
            sid,
            SpaceEventKind::User,
            seen,
        ).1 == r.request(w.pid, AppRequest::WindowMaybeDestroyed(w)),
{
    if r.assigned_space(w) != Some(sid) {
        let asked = r.request(w.pid, AppRequest::WindowMaybeDestroyed(w));
        assert(r.departure_steps(wsid, sid) =~= asked);
    }
}

/// A window that appears in a space while it is being moved to another keeps
/// the space that is on record and its workspace, and is not moved back.
pub proof fn law_stale_appearance_moves_nothing(
    r: ReactorView,
    wsid: WindowServerId,
    sid: SpaceId,
    seen: WindowSighting,
    w: WindowId,
    step: int,
)
    requires
        r.is_stale(wsid, sid),
        r.records().server(wsid).window_id == Some(w),
        !r.has_track_of(w, r.owner_of(wsid, w)),
    ensures
        ({
            let (next, steps) = r.on_appeared(wsid, sid, SpaceEventKind::User, seen);
            &&& next.records().server(wsid).space == r.records().server(wsid).space
            &&& next.records().workspace_of(w) == r.records().workspace_of(w)
            &&& next.manager.workspaces == r.manager.workspaces
            &&& 0 <= step < steps.len() ==> !(steps[step] is ReassignWindow)
        }),
{
    let here = r.with_arrival(wsid, sid);
    assert(here.tracks == r.tracks);
    assert(here.owner_of(wsid, w) == r.owner_of(wsid, w));
    if here.has_track_of(w, here.owner_of(wsid, w)) {
        let (space, i) = choose|space: SpaceId, i: int|
            #![trigger here.tracks[space][i]]
            here.tracks.contains_key(space) && 0 <= i < here.tracks[space].len()
                && crate::reactor::is_track_of(
                here.tracks[space][i],
                w,
                here.owner_of(wsid, w),
            );
        assert(crate::reactor::is_track_of(r.tracks[space][i], w, r.owner_of(wsid, w)));
    }
}

/// A window that goes into fullscreen is tracked; once it is back, neither it
/// nor another one of its process is, and those of other processes still are.
pub proof fn law_fullscreen_round_trip(
    r: ReactorView,
    sid: SpaceId,
    w: WindowId,
    home: Option<SpaceId>,
    space: SpaceId,
    other: FullscreenWindowTrack,
)
    requires
        !crate::reactor::is_track_of(other, w, w.pid),
    ensures
        r.with_track(sid, w.pid, Some(w), home).has_track_of(w, w.pid),
        !r.with_track(sid, w.pid, Some(w), home).without_tracks_of(w, w.pid).has_track_of(w, w.pid),
        r.with_track(sid, w.pid, Some(w), home).without_tracks_of(w, w.pid).tracks_in(
            space,
        ).contains(other) <==> r.tracks_in(space).contains(other),
{
    let gone = r.with_track(sid, w.pid, Some(w), home);
    let back = gone.without_tracks_of(w, w.pid);
    let keep = |track: FullscreenWindowTrack| !crate::reactor::is_track_of(track, w, w.pid);
    assert(crate::reactor::is_track_of(
        gone.tracks[sid][gone.tracks[sid].len() - 1],
        w,
        w.pid,
    ));
    if back.has_track_of(w, w.pid) {
        let (s, i) = choose|s: SpaceId, i: int|
            #![trigger back.tracks[s][i]]
            back.tracks.contains_key(s) && 0 <= i < back.tracks[s].len()
                && crate::reactor::is_track_of(back.tracks[s][i], w, w.pid);
        assert(back.tracks[s] == ReactorView::remaining(gone.tracks[s], w, w.pid));
        assert(ReactorView::remaining(gone.tracks[s], w, w.pid) == gone.tracks[s].filter(keep));
        gone.tracks[s].lemma_filter_pred(keep, i);
    }
    let list = gone.tracks_in(space);
    assert(ReactorView::remaining(list, w, w.pid) == list.filter(keep));
    if list.contains(other) {
        let i = choose|i: int| 0 <= i < list.len() && list[i] == other;
        list.lemma_filter_contains(keep, i);
        assert(list.filter(keep).contains(other));
    }
    if list.filter(keep).contains(other) {
        list.lemma_filter_contains_rev(keep, other);
    }
    if list.len() == 0 {
        list.lemma_filter_len(keep);
    }
    assert(back.tracks_in(space) =~= list.filter(keep));
    if space == sid {
        let before = r.tracks_in(sid);
        crate::id_map::lemma_contains_push(before, gone.tracks[sid].last());
        assert(list =~= before.push(gone.tracks[sid].last()));
    }
}

/// While Mission Control is open a snapshot waits; once it is closed the
/// snapshot is taken over with everything that it brings.
pub proof fn law_snapshot_waits_for_mission_control(r: ReactorView, s: SnapshotView)
    requires
        r.mission_control_active,
        s.screens.len() > 0,
    ensures
        r.on_space_state(s).0.pending_change == Some(s),
        r.on_space_state(s).1 == crate::space_events::display_set_steps(s),
        ({
            let waiting = r.on_space_state(s).0;
            let closed = ReactorView {
                mission_control_active: false,
                pending_change: None,
                ..waiting
            };
            let (next, steps) = closed.on_space_state(s);
            &&& next.spaces.screens == s.screens
            &&& next.spaces.command_space == s.command_space
            &&& next.pending_change is None
            &&& steps == crate::space_events::display_set_steps(s)
                + crate::space_events::reconcile_steps(s)
        }),
{
}

/// A snapshot that says nothing new but which space commands go to changes that
/// and nothing else, and brings no step; one with windows that came or left is
/// never taken for one.
pub proof fn law_command_space_alone_brings_no_step(r: ReactorView, s: SnapshotView)
    ensures
        r.only_command_space_differs(s) ==> {
            let (next, steps) = r.on_space_state(s);
            &&& steps.len() == 0
            &&& next.spaces.command_space == s.command_space
            &&& next.manager == r.manager
            &&& next.spaces.screens == r.spaces.screens
            &&& next.spaces.active_spaces == r.spaces.active_spaces
        },
        s.topology_window_delta is Some ==> !r.only_command_space_differs(s),
        r.on_space_state(s).0.spaces.command_space == if s.screens.len() == 0 {
            None
        } else {
            s.command_space
        },
{
}

/// A snapshot leaves the windows in fullscreen, the workspaces and the registry
/// as they are.
pub proof fn law_snapshot_keeps_tracks_and_windows(r: ReactorView, s: SnapshotView)
    ensures
        r.on_space_state(s).0.tracks == r.tracks,
        r.on_space_state(s).0.manager == r.manager,
        r.on_space_state(s).0.apps == r.apps,
{
}

/// When no screen is reported, none is kept, nor a space for commands.
pub proof fn law_empty_snapshot_clears_screens(r: ReactorView, s: SnapshotView)
    requires
        s.screens.len() == 0,
    ensures
        r.on_space_state(s).0.spaces.screens.len() == 0,
        r.on_space_state(s).0.spaces.command_space is None,
        r.on_space_state(s).0.spaces.display_space_ids.len() == 0,
{
}

/// A window that the window server no longer has is forgotten when it leaves
/// its space.
pub proof fn law_gone_window_is_forgotten(
    r: ReactorView,
    wsid: WindowServerId,
    sid: SpaceId,
    seen: WindowSighting,
    w: WindowId,
    id: VirtualWorkspaceId,
)
    requires
        r.manager.is_consistent(),
        !r.is_stale(wsid, sid),
        r.records().server(wsid).window_id == Some(w),
        !seen.ordered_in,
    ensures
        ({
            let next = r.on_destroyed(wsid, sid, SpaceEventKind::User, seen).0;
            &&& next.records().window(w).state is None
            &&& next.records().server(wsid).window_id is None
            &&& next.assigned_space(w) is None
            &&& !next.manager.holds(id, w)
        }),
{
    let next = r.with_records(
        r.records().put_server(
            wsid,
            crate::window_registry::WindowServerRecord {
                space: Some(sid),
                visible: false,
                ..r.records().server(wsid)
            },
        ),
    );
    lemma_server_records_keep_consistency(r.manager, next.records());
    crate::consistency::law_removal_takes_the_window_out(next.manager, w);
    let out = next.manager.without_window(w);
    assert(!out.holds(id, w));
    assert(out.records().servers == next.records().servers);
}

/// What is recorded of the window server does not bear on consistency.
proof fn lemma_server_records_keep_consistency(m: ManagerView, records: RegistryView)
    requires
        m.is_consistent(),
        records.windows == m.records().windows,
    ensures
        m.with_registry(records).is_consistent(),
{
    let next = m.with_registry(records);
    assert forall|id: VirtualWorkspaceId, w: WindowId| #[trigger]
        next.holds(id, w) implies next.records().workspace_of(w) == Some(
        WindowWorkspaceInfo { space: next.workspaces[id].space, workspace_id: id },
    ) by {
        assert(m.holds(id, w));
    }
    crate::consistency::lemma_same_lists(m, next);
}

/// No event breaks the consistency of the workspaces.
pub proof fn law_events_keep_consistency(
    r: ReactorView,
    wsid: WindowServerId,
    sid: SpaceId,
    kind: SpaceEventKind,
    seen: WindowSighting,
    answer: Option<ObservedWindow>,
    s: SnapshotView,
)
    requires
        r.manager.is_consistent(),
    ensures
        r.on_destroyed(wsid, sid, kind, seen).0.manager.is_consistent(),
        r.on_appeared(wsid, sid, kind, seen).0.manager.is_consistent(),
        r.on_window_observed(wsid, sid, kind, answer, seen).0.manager.is_consistent(),
        r.on_space_state(s).0.manager.is_consistent(),
{
    let server = r.records().server(wsid);
    let hidden = r.with_records(
        r.records().put_server(
            wsid,
            crate::window_registry::WindowServerRecord {
                space: Some(sid),
                visible: false,
                ..server
            },
        ),
    );
    lemma_server_records_keep_consistency(r.manager, hidden.records());
    if let Some(w) = server.window_id {
        crate::consistency::law_removal_takes_the_window_out(hidden.manager, w);
        let out = hidden.manager.without_window(w);
        let gone = out.with_registry(out.records().without_windows(set![w]));
        assert forall|id: VirtualWorkspaceId, v: WindowId| #[trigger]
            gone.holds(id, v) implies gone.records().workspace_of(v) == Some(
            WindowWorkspaceInfo { space: gone.workspaces[id].space, workspace_id: id },
        ) by {
            assert(out.holds(id, v));
            assert(v != w);
        }
        crate::consistency::lemma_same_lists(out, gone);
    }
    let here = match kind {
        SpaceEventKind::User => r.with_arrival(wsid, sid),
        SpaceEventKind::Fullscreen => r,
    };
    if kind == SpaceEventKind::User {
        lemma_server_records_keep_consistency(r.manager, here.records());
    }
    let noted = here.with_records(
        here.records().put_server(
            wsid,
            crate::window_registry::WindowServerRecord {
                observed: true,
                ..here.records().server(wsid)
            },
        ),
    );
    lemma_server_records_keep_consistency(here.manager, noted.records());
    if let Some(w) = here.records().server(wsid).window_id {
        crate::consistency::law_removal_takes_the_window_out(here.manager, w);
    }
}

} // verus!
