//! Which steps events bring, and what they leave on record.
use crate::ids::{Pid, SpaceId, WindowId, WindowServerId};
use crate::manager_state::ManagerView;
use crate::reactor::{
    AppRequest, FullscreenWindowTrack, LayoutEvent, ObservedWindow, ReactorView, ScreenInfo,
    SnapshotView, SpaceEventKind, StepView, WindowSighting,
};
use crate::window_registry::RegistryView;
use vstd::prelude::*;

verus! {

/// The screens that show a space and have a display name.
pub open spec fn named_screens(screens: Seq<ScreenInfo>) -> Seq<ScreenInfo> {
    screens.filter(|s: ScreenInfo| s.space is Some && s.display_uuid@.len() > 0)
}

proof fn lemma_display_steps(screens: Seq<ScreenInfo>)
    ensures
        crate::space_events::display_steps(screens).len() == named_screens(screens).len(),
        forall|i: int|
            0 <= i < named_screens(screens).len() ==> #[trigger] crate::space_events::display_steps(
                screens,
            )[i] == (StepView::UpdateSpaceDisplay {
                space: named_screens(screens)[i].space->0,
                display_uuid: named_screens(screens)[i].display_uuid@,
            }),
    decreases screens.len(),
{
    reveal(Seq::filter);
    if screens.len() > 0 {
        lemma_display_steps(screens.drop_last());
    }
}

/// A snapshot is taken over at once: there are screens, Mission Control is not
/// open, and it says more than which space commands go to.
pub open spec fn is_taken_over(r: ReactorView, s: SnapshotView) -> bool {
    s.screens.len() > 0 && !r.mission_control_active && !r.only_command_space_differs(s)
}

/// Where the steps for remaps begin among those of a snapshot that is taken over:
/// two steps come first if the displays have changed, then three more, then one
/// for each screen that shows a space and has a display name.
pub open spec fn remaps_from(s: SnapshotView) -> int {
    (if s.display_set_changed {
        2int
    } else {
        0int
    }) + 3 + named_screens(s.screens).len()
}

/// A snapshot that is taken over brings its steps in a fixed order. If the
/// displays have changed, the state of others is pruned, by the names of the
/// screens, and pending frames are forgotten. Then the activation policy is told,
/// the active spaces are applied, and windows are restored for the spaces that
/// the screens show, in the order of the screens. Then, in the order of the
/// snapshot, come the displays of the screens that have one, the remaps, each
/// from its first space to its second, the resized spaces, the windows that have
/// left and those that have come. Then the change is finalized, and a pending one
/// is tried. Windows are refreshed and laid out if that is asked for. Last,
/// phantom windows are reconciled.
pub proof fn law_snapshot_brings_its_steps_in_order(
    r: ReactorView,
    s: SnapshotView,
    steps: Seq<StepView>,
    i: int,
)
    requires
        is_taken_over(r, s),
        r.on_space_state(s).1 == steps,
    ensures
        ({
            let d = if s.display_set_changed {
                2int
            } else {
                0int
            };
            let shown = Seq::new(s.screens.len(), |k: int| s.screens[k].space);
            let names = Seq::new(s.screens.len(), |k: int| s.screens[k].display_uuid@);
            let screens = named_screens(s.screens);
            let remaps = remaps_from(s);
            let resized = remaps + s.space_remaps.len();
            let left = resized + s.resized_spaces.len();
            let came = left + match s.topology_window_delta {
                Some(delta) => delta.disappeared.len(),
                None => 0,
            };
            let end = came + match s.topology_window_delta {
                Some(delta) => delta.appeared.len(),
                None => 0,
            };
            &&& s.display_set_changed ==> steps[0] == StepView::PruneDisplayState(names)
            &&& s.display_set_changed ==> steps[1] == StepView::ClearPendingTargets
            &&& steps[d] == StepView::NotifySpacesUpdated
            &&& steps[d + 1] == StepView::ApplyActiveSpaces(s.active_spaces)
            &&& steps[d + 2] == StepView::RestoreWindowsAfterFullscreenExit(shown)
            &&& 0 <= i < screens.len() ==> steps[d + 3 + i] == (StepView::UpdateSpaceDisplay {
                space: screens[i].space->0,
                display_uuid: screens[i].display_uuid@,
            })
            &&& 0 <= i < s.space_remaps.len() ==> steps[remaps + i] == (StepView::RemapSpace {
                previous: s.space_remaps[i].0,
                space: s.space_remaps[i].1,
            })
            &&& 0 <= i < s.resized_spaces.len() ==> steps[resized + i]
                == (StepView::ExposeResized {
                space: s.resized_spaces[i].0,
                size: s.resized_spaces[i].1,
            })
            &&& s.topology_window_delta matches Some(delta) ==> {
                &&& 0 <= i < delta.disappeared.len() ==> steps[left + i]
                    == (StepView::WindowDisappeared {
                    wsid: delta.disappeared[i].0,
                    space: delta.disappeared[i].1,
                })
                &&& 0 <= i < delta.appeared.len() ==> steps[came + i] == (StepView::WindowAppeared {
                    wsid: delta.appeared[i].0,
                    space: delta.appeared[i].1,
                })
            }
            &&& steps[end] == StepView::FinalizeSpaceChange(shown)
            &&& steps[end + 1] == StepView::TryApplyPendingSpaceChange
            &&& s.should_force_refresh_layout ==> {
                &&& steps[end + 2] == StepView::ForceRefreshAllWindows
                &&& steps[end + 3] == StepView::UpdateLayoutAfterTopologyChange
                &&& steps[end + 4] == StepView::ReconcilePhantomWindows
                &&& steps.len() == end + 5
            }
            &&& !s.should_force_refresh_layout ==> {
                &&& steps[end + 2] == StepView::ReconcilePhantomWindows
                &&& steps.len() == end + 3
            }
        }),
{
    lemma_taken_over(r, s);
    lemma_places(s, steps, i);
}

proof fn lemma_taken_over(r: ReactorView, s: SnapshotView)
    requires
        is_taken_over(r, s),
    ensures
        r.on_space_state(s).1 == crate::space_events::display_set_steps(s)
            + crate::space_events::reconcile_steps(s),
{
}

#[verifier::spinoff_prover]
#[verifier::rlimit(40)]
proof fn lemma_places(s: SnapshotView, steps: Seq<StepView>, i: int)
    requires
        steps == crate::space_events::display_set_steps(s) + crate::space_events::reconcile_steps(
            s,
        ),
    ensures
        ({
            let d = if s.display_set_changed {
                2int
            } else {
                0int
            };
            let shown = Seq::new(s.screens.len(), |k: int| s.screens[k].space);
            let names = Seq::new(s.screens.len(), |k: int| s.screens[k].display_uuid@);
            let screens = named_screens(s.screens);
            let remaps = remaps_from(s);
            let resized = remaps + s.space_remaps.len();
            let left = resized + s.resized_spaces.len();
            let came = left + match s.topology_window_delta {
                Some(delta) => delta.disappeared.len(),
                None => 0,
            };
            let end = came + match s.topology_window_delta {
                Some(delta) => delta.appeared.len(),
                None => 0,
            };
            &&& s.display_set_changed ==> steps[0] == StepView::PruneDisplayState(names)
            &&& s.display_set_changed ==> steps[1] == StepView::ClearPendingTargets
            &&& steps[d] == StepView::NotifySpacesUpdated
            &&& steps[d + 1] == StepView::ApplyActiveSpaces(s.active_spaces)
            &&& steps[d + 2] == StepView::RestoreWindowsAfterFullscreenExit(shown)
            &&& 0 <= i < screens.len() ==> steps[d + 3 + i] == (StepView::UpdateSpaceDisplay {
                space: screens[i].space->0,
                display_uuid: screens[i].display_uuid@,
            })
            &&& 0 <= i < s.space_remaps.len() ==> steps[remaps + i] == (StepView::RemapSpace {
                previous: s.space_remaps[i].0,
                space: s.space_remaps[i].1,
            })
            &&& 0 <= i < s.resized_spaces.len() ==> steps[resized + i]
                == (StepView::ExposeResized {
                space: s.resized_spaces[i].0,
                size: s.resized_spaces[i].1,
            })
            &&& s.topology_window_delta matches Some(delta) ==> {
                &&& 0 <= i < delta.disappeared.len() ==> steps[left + i]
                    == (StepView::WindowDisappeared {
                    wsid: delta.disappeared[i].0,
                    space: delta.disappeared[i].1,
                })
                &&& 0 <= i < delta.appeared.len() ==> steps[came + i] == (StepView::WindowAppeared {
                    wsid: delta.appeared[i].0,
                    space: delta.appeared[i].1,
                })
            }
            &&& steps[end] == StepView::FinalizeSpaceChange(shown)
            &&& steps[end + 1] == StepView::TryApplyPendingSpaceChange
            &&& s.should_force_refresh_layout ==> {
                &&& steps[end + 2] == StepView::ForceRefreshAllWindows
                &&& steps[end + 3] == StepView::UpdateLayoutAfterTopologyChange
                &&& steps[end + 4] == StepView::ReconcilePhantomWindows
                &&& steps.len() == end + 5
            }
            &&& !s.should_force_refresh_layout ==> {
                &&& steps[end + 2] == StepView::ReconcilePhantomWindows
                &&& steps.len() == end + 3
            }
        }),
{
    lemma_display_steps(s.screens);
    let shown = Seq::new(s.screens.len(), |k: int| s.screens[k].space);
    let names = Seq::new(s.screens.len(), |k: int| s.screens[k].display_uuid@);
    assert(crate::space_events::shown_spaces(s.screens) =~= shown);
    assert(crate::space_events::display_names(s.screens) =~= names);
    let pruned = crate::space_events::display_set_steps(s);
    let told = seq![
        StepView::NotifySpacesUpdated,
        StepView::ApplyActiveSpaces(s.active_spaces),
        StepView::RestoreWindowsAfterFullscreenExit(shown),
    ];
    let displays = crate::space_events::display_steps(s.screens);
    let remaps = crate::space_events::remap_steps(s.space_remaps);
    let resizes = crate::space_events::resize_steps(s.resized_spaces);
    let moves = crate::space_events::delta_steps(s.topology_window_delta);
    let finished = seq![
        StepView::FinalizeSpaceChange(shown),
        StepView::TryApplyPendingSpaceChange,
    ];
    let refreshed = if s.should_force_refresh_layout {
        seq![StepView::ForceRefreshAllWindows, StepView::UpdateLayoutAfterTopologyChange]
    } else {
        Seq::empty()
    };
    let last = seq![StepView::ReconcilePhantomWindows];
    lemma_joined(pruned, told, displays, remaps, resizes, moves, finished, refreshed, last, steps, i);
    lemma_joined(pruned, told, displays, remaps, resizes, moves, finished, refreshed, last, steps, 0);
    lemma_joined(pruned, told, displays, remaps, resizes, moves, finished, refreshed, last, steps, 1);
    lemma_joined(pruned, told, displays, remaps, resizes, moves, finished, refreshed, last, steps, 2);
    if let Some(delta) = s.topology_window_delta {
        lemma_joined(
            pruned,
            told,
            displays,
            remaps,
            resizes,
            moves,
            finished,
            refreshed,
            last,
            steps,
            delta.disappeared.len() + i,
        );
    }
}

/// Where the parts of a list that is joined from several stand.
proof fn lemma_joined(
    a: Seq<StepView>,
    b: Seq<StepView>,
    c: Seq<StepView>,
    d: Seq<StepView>,
    e: Seq<StepView>,
    f: Seq<StepView>,
    g: Seq<StepView>,
    h: Seq<StepView>,
    l: Seq<StepView>,
    all: Seq<StepView>,
    i: int,
)
    requires
        all == a + (b + c + d + e + f + g + h + l),
    ensures
        ({
            let nc = a.len() + b.len();
            let nd = nc + c.len();
            let ne = nd + d.len();
            let nf = ne + e.len();
            let ng = nf + f.len();
            let nh = ng + g.len();
            let nl = nh + h.len();
            &&& all.len() == nl + l.len()
            &&& 0 <= i < a.len() ==> all[i] == a[i]
            &&& 0 <= i < b.len() ==> all[a.len() + i] == b[i]
            &&& 0 <= i < c.len() ==> all[nc + i] == c[i]
            &&& 0 <= i < d.len() ==> all[nd + i] == d[i]
            &&& 0 <= i < e.len() ==> all[ne + i] == e[i]
            &&& 0 <= i < f.len() ==> all[nf + i] == f[i]
            &&& 0 <= i < g.len() ==> all[ng + i] == g[i]
            &&& 0 <= i < h.len() ==> all[nh + i] == h[i]
            &&& 0 <= i < l.len() ==> all[nl + i] == l[i]
        }),
{
}

/// The steps of a snapshot that move spaces are one for each remap, in order,
/// each from the first space of the remap to its second. To take one leaves the
/// second space with the workspaces that the first had, in their order and with
/// their windows, and the first space with none.
pub proof fn law_remaps_move_the_first_space_to_the_second(
    r: ReactorView,
    s: SnapshotView,
    k: int,
    i: int,
    m: ManagerView,
)
    requires
        is_taken_over(r, s),
        m.is_consistent(),
        0 <= k < r.on_space_state(s).1.len(),
        0 <= i < s.space_remaps.len(),
        s.space_remaps[i].0 != s.space_remaps[i].1,
        m.by_space.contains_key(s.space_remaps[i].0),
    ensures
        r.on_space_state(s).1[k] is RemapSpace <==> remaps_from(s) <= k < remaps_from(s)
            + s.space_remaps.len(),
        k == remaps_from(s) + i ==> (r.on_space_state(s).1[k] matches StepView::RemapSpace {
            previous,
            space,
        } && {
            let next = m.with_space_renamed(previous, space);
            &&& previous == s.space_remaps[i].0
            &&& space == s.space_remaps[i].1
            &&& next.by_space.contains_key(s.space_remaps[i].1)
            &&& next.by_space[s.space_remaps[i].1] == m.by_space[s.space_remaps[i].0]
            &&& !next.by_space.contains_key(s.space_remaps[i].0)
            &&& next.active[s.space_remaps[i].1] == m.active[s.space_remaps[i].0]
        }),
{
    let steps = r.on_space_state(s).1;
    law_snapshot_brings_its_steps_in_order(r, s, steps, k - remaps_from(s));
    lemma_display_steps(s.screens);
    assert(m.list_is_sound(s.space_remaps[i].0));
    assert(m.active.contains_key(s.space_remaps[i].0));
    if !(remaps_from(s) <= k < remaps_from(s) + s.space_remaps.len()) {
        lemma_other_steps_move_nothing(r, s, k);
    }
}

#[verifier::spinoff_prover]
#[verifier::rlimit(40)]
proof fn lemma_other_steps_move_nothing(r: ReactorView, s: SnapshotView, k: int)
    requires
        is_taken_over(r, s),
        0 <= k < r.on_space_state(s).1.len(),
        !(remaps_from(s) <= k < remaps_from(s) + s.space_remaps.len()),
    ensures
        !(r.on_space_state(s).1[k] is RemapSpace),
{
    lemma_display_steps(s.screens);
    let steps = r.on_space_state(s).1;
    let d = if s.display_set_changed {
        2int
    } else {
        0int
    };
    if d + 3 <= k < remaps_from(s) {
        law_snapshot_brings_its_steps_in_order(r, s, steps, k - d - 3);
    } else {
        let resized = remaps_from(s) + s.space_remaps.len();
        let left = resized + s.resized_spaces.len();
        law_snapshot_brings_its_steps_in_order(r, s, steps, k - resized);
        if let Some(delta) = s.topology_window_delta {
            law_snapshot_brings_its_steps_in_order(r, s, steps, k - left);
            law_snapshot_brings_its_steps_in_order(
                r,
                s,
                steps,
                k - left - delta.disappeared.len(),
            );
        }
    }
}

/// What a snapshot leaves on record. While Mission Control is open it waits, but
/// for the screens, their spaces and the clearing that goes with other displays.
/// Where there are no screens, what was known of them goes, all spaces are exposed
/// if there were any before, and windows are no longer cleaned up.
pub proof fn law_snapshot_is_recorded(r: ReactorView, s: SnapshotView)
    requires
        !r.only_command_space_differs(s),
    ensures
        ({
            let (next, steps) = r.on_space_state(s);
            let d = if s.display_set_changed {
                2int
            } else {
                0int
            };
            &&& next.spaces.has_seen_display_set == s.has_seen_display_set
            &&& next.spaces.fullscreen_spaces == s.fullscreen_spaces
            &&& next.spaces.screens == s.screens
            &&& next.spaces.active_spaces == r.spaces.active_spaces
            &&& s.screens.len() > 0 ==> next.spaces.command_space == s.command_space
                && next.spaces.display_space_ids == s.display_space_ids
                && next.spaces.last_user_space_by_display == s.last_user_space_by_display
            &&& s.screens.len() == 0 ==> next.spaces.command_space is None
                && next.spaces.display_space_ids.len() == 0
                && next.spaces.last_user_space_by_display == r.spaces.last_user_space_by_display
            &&& next.stale_cleanup_state is Suppressed <==> s.screens.len() == 0
            &&& next.pending_targets == if s.display_set_changed {
                Set::empty()
            } else {
                r.pending_targets
            }
            &&& next.pending_change == if s.screens.len() > 0 && r.mission_control_active {
                Some(s)
            } else {
                r.pending_change
            }
            &&& next.mission_control_active == r.mission_control_active
            &&& next.drag_state == r.drag_state
            &&& next.skip_layout_for_window == r.skip_layout_for_window
            &&& s.screens.len() > 0 && r.mission_control_active ==> steps.len() == d
            &&& s.screens.len() == 0 ==> {
                let e = d + if r.spaces.screens.len() > 0 {
                    1int
                } else {
                    0int
                };
                &&& steps.len() == e + 3
                &&& r.spaces.screens.len() > 0 ==> steps[d] == StepView::ExposeAllSpaces
                &&& steps[e] == StepView::RecomputeActiveSpaces
                &&& steps[e + 1] == StepView::ClearWindowServerInfo
                &&& steps[e + 2] == StepView::TryApplyPendingSpaceChange
            }
        }),
{
    assert(s.screens.len() == 0 ==> s.screens =~= Seq::empty());
}

/// A snapshot that differs from what is on record in anything but the space for
/// commands, or does not differ in that, is not passed over.
pub proof fn law_only_a_new_command_space_is_passed_over(r: ReactorView, s: SnapshotView, i: int)
    requires
        r.only_command_space_differs(s),
    ensures
        s.command_space != r.spaces.command_space,
        !r.mission_control_active,
        r.pending_change is None,
        s.screens.len() > 0,
        s.screens.len() == r.spaces.screens.len(),
        0 <= i < s.screens.len() ==> {
            let (a, b) = (s.screens[i], r.spaces.screens[i]);
            &&& a.space == b.space
            &&& a.frame == b.frame
            &&& a.id == b.id
            &&& a.display_uuid@ == b.display_uuid@
            &&& a.name is Some <==> b.name is Some
            &&& a.name is Some ==> a.name->0@ == b.name->0@
        },
        forall|x: SpaceId| #[trigger]
            s.active_spaces.contains(x) <==> r.spaces.active_spaces.contains(x),
        forall|x: SpaceId| #[trigger]
            s.fullscreen_spaces.contains(x) <==> r.spaces.fullscreen_spaces.contains(x),
        s.has_seen_display_set == r.spaces.has_seen_display_set,
        s.display_space_ids.len() == r.spaces.display_space_ids.len(),
        s.last_user_space_by_display.len() == r.spaces.last_user_space_by_display.len(),
        0 <= i < s.display_space_ids.len() ==> s.display_space_ids[i].space
            == r.spaces.display_space_ids[i].space && s.display_space_ids[i].display_uuid@
            == r.spaces.display_space_ids[i].display_uuid@,
        0 <= i < s.last_user_space_by_display.len() ==> s.last_user_space_by_display[i].space
            == r.spaces.last_user_space_by_display[i].space
            && s.last_user_space_by_display[i].display_uuid@
            == r.spaces.last_user_space_by_display[i].display_uuid@,
        s.space_remaps.len() == 0,
        s.resized_spaces.len() == 0,
        s.topology_window_delta is None,
        !s.display_set_changed,
        !s.should_force_refresh_layout,
{
    assert forall|x: SpaceId| #[trigger]
        s.active_spaces.contains(x) <==> r.spaces.active_spaces.contains(x) by {
        assert(s.active_spaces.to_set().contains(x) == r.spaces.active_spaces.to_set().contains(x));
    }
    assert forall|x: SpaceId| #[trigger]
        s.fullscreen_spaces.contains(x) <==> r.spaces.fullscreen_spaces.contains(x) by {
        assert(s.fullscreen_spaces.to_set().contains(x)
            == r.spaces.fullscreen_spaces.to_set().contains(x));
    }
    if 0 <= i < s.screens.len() {
        assert(crate::space_events::same_screen(s.screens[i], r.spaces.screens[i]));
    }
}

/// The window is assigned to a workspace of `space`.
pub open spec fn is_assigned_to(reg: RegistryView, w: WindowId, space: SpaceId) -> bool {
    reg.windows.contains_key(w) && reg.windows[w].workspace is Some
        && reg.windows[w].workspace->0.space == space
}

/// The window server's window is that window.
pub open spec fn stands_for(reg: RegistryView, wsid: WindowServerId, w: WindowId) -> bool {
    reg.servers.contains_key(wsid) && reg.servers[wsid].window_id == Some(w)
}

/// The window server's window is that of no window that is known.
pub open spec fn stands_for_none(reg: RegistryView, wsid: WindowServerId) -> bool {
    reg.servers.contains_key(wsid) ==> reg.servers[wsid].window_id is None
}

/// The window has been asked to take a frame, and is on record in another space.
pub open spec fn is_under_way(
    r: ReactorView,
    reg: RegistryView,
    wsid: WindowServerId,
    space: SpaceId,
) -> bool {
    r.pending_targets.contains(wsid) && reg.servers.contains_key(wsid)
        && reg.servers[wsid].space is Some && reg.servers[wsid].space != Some(space)
}

/// One step, or none.
pub open spec fn maybe(condition: bool, step: StepView) -> Seq<StepView> {
    if condition {
        seq![step]
    } else {
        seq![]
    }
}

/// A window that leaves a user space leaves the layout if it is assigned to that
/// space, which is then laid out again unless Mission Control is open. Its app is
/// asked whether it still exists, if the app is known. A window that nobody knows
/// brings no step.
pub proof fn law_departure_from_a_user_space_brings_its_steps(
    r: ReactorView,
    reg: RegistryView,
    wsid: WindowServerId,
    sid: SpaceId,
    seen: WindowSighting,
    w: WindowId,
)
    requires
        r.manager.registry == Some(reg),
    ensures
        stands_for(reg, wsid, w) ==> r.on_destroyed(wsid, sid, SpaceEventKind::User, seen).1
            == maybe(
            is_assigned_to(reg, w, sid),
            StepView::SendLayoutEvent(LayoutEvent::WindowRemovedPreserveFloating(w)),
        ) + maybe(
            is_assigned_to(reg, w, sid) && !r.mission_control_active,
            StepView::UpdateLayout,
        ) + maybe(
            r.apps.contains(Pid { raw: w.pid }),
            StepView::SendRequest { pid: w.pid, request: AppRequest::WindowMaybeDestroyed(w) },
        ),
        stands_for_none(reg, wsid) ==> r.on_destroyed(
            wsid,
            sid,
            SpaceEventKind::User,
            seen,
        ).1.len() == 0,
{
    if stands_for(reg, wsid, w) {
        assert(r.departure_steps(wsid, sid) =~= maybe(
            is_assigned_to(reg, w, sid),
            StepView::SendLayoutEvent(LayoutEvent::WindowRemovedPreserveFloating(w)),
        ) + maybe(
            is_assigned_to(reg, w, sid) && !r.mission_control_active,
            StepView::UpdateLayout,
        ) + maybe(
            r.apps.contains(Pid { raw: w.pid }),
            StepView::SendRequest { pid: w.pid, request: AppRequest::WindowMaybeDestroyed(w) },
        ));
    }
}

/// A window that leaves a user space is on record there, hidden, and nothing else
/// that is known of it changes, nor of any other window; unless it is under way to
/// another space, when nothing changes at all. A window that the window server no
/// longer has is forgotten, and is in no workspace of those that it was assigned
/// to.
pub proof fn law_departure_from_a_user_space_is_recorded(
    r: ReactorView,
    reg: RegistryView,
    wsid: WindowServerId,
    sid: SpaceId,
    seen: WindowSighting,
    other: WindowServerId,
    w: WindowId,
)
    requires
        r.manager.registry == Some(reg),
        other != wsid,
    ensures
        ({
            let next = r.on_destroyed(wsid, sid, SpaceEventKind::User, seen).0;
            let after = next.manager.registry->0;
            &&& is_under_way(r, reg, wsid, sid) ==> next == r
            &&& !is_under_way(r, reg, wsid, sid) && (seen.ordered_in || stands_for_none(reg, wsid))
                ==> {
                &&& next.manager.registry is Some
                &&& after.servers.contains_key(wsid)
                &&& after.servers[wsid].space == Some(sid)
                &&& !after.servers[wsid].visible
                &&& reg.servers.contains_key(wsid) ==> after.servers[wsid].window_id
                    == reg.servers[wsid].window_id && after.servers[wsid].info
                    == reg.servers[wsid].info && after.servers[wsid].observed
                    == reg.servers[wsid].observed && after.servers[wsid].recent_at
                    == reg.servers[wsid].recent_at
                &&& after.servers.contains_key(other) == reg.servers.contains_key(other)
                &&& reg.servers.contains_key(other) ==> after.servers[other] == reg.servers[other]
                &&& after.windows == reg.windows
                &&& next.manager.workspaces == r.manager.workspaces
            }
            &&& !is_under_way(r, reg, wsid, sid) && !seen.ordered_in && stands_for(reg, wsid, w)
                ==> {
                &&& !after.windows.contains_key(w)
                &&& !after.servers.contains_key(wsid)
                &&& reg.windows.contains_key(w) && reg.windows[w].workspace is Some ==> {
                    let id = reg.windows[w].workspace->0.workspace_id;
                    next.manager.workspaces.contains_key(id)
                        ==> !next.manager.workspaces[id].windows.contains(w)
                }
            }
            &&& next.tracks == r.tracks
            &&& next.spaces == r.spaces
            &&& next.pending_targets == r.pending_targets
            &&& next.mission_control_active == r.mission_control_active
        }),
{
}

/// The space of the first screen that shows one, if any does.
pub open spec fn is_first_shown(screens: Seq<ScreenInfo>, space: Option<SpaceId>) -> bool {
    &&& forall|i: int|
        0 <= i < screens.len() && (#[trigger] screens[i]).space is Some && (forall|j: int|
            0 <= j < i ==> (#[trigger] screens[j]).space is None) ==> space == screens[i].space
    &&& (forall|i: int| 0 <= i < screens.len() ==> (#[trigger] screens[i]).space is None) ==> space
        is None
}

proof fn lemma_first_shown(screens: Seq<ScreenInfo>)
    ensures
        is_first_shown(screens, crate::reactor::first_space(screens)),
    decreases screens.len(),
{
    if screens.len() > 0 && screens[0].space is None {
        let rest = screens.drop_first();
        lemma_first_shown(rest);
        let found = crate::reactor::first_space(screens);
        assert forall|i: int|
            0 <= i < screens.len() && (#[trigger] screens[i]).space is Some && (forall|j: int|
                0 <= j < i ==> (#[trigger] screens[j]).space is None) implies found
            == screens[i].space by {
            assert(rest[i - 1] == screens[i]);
            assert forall|j: int| 0 <= j < i - 1 implies (#[trigger] rest[j]).space is None by {
                assert(rest[j] == screens[j + 1]);
            }
        }
        if forall|i: int| 0 <= i < screens.len() ==> (#[trigger] screens[i]).space is None {
            assert forall|i: int| 0 <= i < rest.len() implies (#[trigger] rest[i]).space is None by {
                assert(rest[i] == screens[i + 1]);
            }
        }
    }
}

/// The home of a window that goes into fullscreen is the space where it is seen,
/// if it is known and seen in one; otherwise the first space that a screen shows.
pub proof fn law_home_is_where_the_window_is_seen(
    r: ReactorView,
    window_id: Option<WindowId>,
    best_space: Option<SpaceId>,
)
    ensures
        window_id is Some && best_space is Some ==> r.home_space(window_id, best_space)
            == best_space,
        window_id is None || best_space is None ==> is_first_shown(
            r.spaces.screens,
            r.home_space(window_id, best_space),
        ),
{
    lemma_first_shown(r.spaces.screens);
}

/// `next` is `r` with one track more, the last one of the fullscreen space `sid`.
pub open spec fn gains_track(
    r: ReactorView,
    next: ReactorView,
    sid: SpaceId,
    pid: i32,
    w: Option<WindowId>,
    home: Option<SpaceId>,
) -> bool {
    let track = FullscreenWindowTrack {
        pid,
        window_id: w,
        last_known_user_space: home,
        last_seen_fullscreen_space: sid,
    };
    let before = if r.tracks.contains_key(sid) {
        r.tracks[sid]
    } else {
        Seq::empty()
    };
    &&& next.tracks.contains_key(sid)
    &&& next.tracks[sid] == before.push(track)
    &&& next.tracks.remove(sid) == r.tracks.remove(sid)
    &&& next.manager == r.manager
    &&& next.spaces == r.spaces
    &&& next.apps == r.apps
    &&& next.pending_targets == r.pending_targets
    &&& next.pending_change == r.pending_change
}

/// Some screen shows the space.
pub open spec fn is_in_use(r: ReactorView, space: SpaceId) -> bool {
    r.spaces.active_spaces.contains(space)
}

/// A window that is gone from a fullscreen space is tracked there with its home,
/// if it or at least its owner is known. A known window leaves the layout of its
/// home if it is assigned to it, which is laid out again if it is active and
/// Mission Control is not open; its app is asked whether the window still exists.
/// A window of which nothing is known changes nothing.
pub proof fn law_departure_from_fullscreen(
    r: ReactorView,
    reg: RegistryView,
    wsid: WindowServerId,
    sid: SpaceId,
    seen: WindowSighting,
    w: WindowId,
)
    requires
        r.manager.registry == Some(reg),
    ensures
        ({
            let (next, steps) = r.on_destroyed(wsid, sid, SpaceEventKind::Fullscreen, seen);
            let home = r.home_space(Some(w), seen.best_space);
            let leaves = home is Some && is_assigned_to(reg, w, home->0);
            &&& stands_for(reg, wsid, w) ==> {
                &&& gains_track(r, next, sid, w.pid, Some(w), home)
                &&& steps == maybe(
                    leaves,
                    StepView::SendLayoutEvent(LayoutEvent::WindowRemovedPreserveFloating(w)),
                ) + maybe(
                    leaves && is_in_use(r, home->0) && !r.mission_control_active,
                    StepView::UpdateLayout,
                ) + maybe(
                    r.apps.contains(Pid { raw: w.pid }),
                    StepView::SendRequest {
                        pid: w.pid,
                        request: AppRequest::WindowMaybeDestroyed(w),
                    },
                )
            }
            &&& stands_for_none(reg, wsid) && reg.servers.contains_key(wsid)
                && reg.servers[wsid].info is Some ==> {
                &&& gains_track(
                    r,
                    next,
                    sid,
                    reg.servers[wsid].info->0.pid,
                    None,
                    r.home_space(None, seen.best_space),
                )
                &&& steps.len() == 0
            }
            &&& stands_for_none(reg, wsid) && (reg.servers.contains_key(wsid)
                ==> reg.servers[wsid].info is None) ==> next == r && steps.len() == 0
        }),
{
    let (next, steps) = r.on_destroyed(wsid, sid, SpaceEventKind::Fullscreen, seen);
    assert(next.tracks.remove(sid) =~= r.tracks.remove(sid));
    let home = r.home_space(Some(w), seen.best_space);
    let leaves = home is Some && is_assigned_to(reg, w, home->0);
    if stands_for(reg, wsid, w) {
        assert(steps =~= maybe(
            leaves,
            StepView::SendLayoutEvent(LayoutEvent::WindowRemovedPreserveFloating(w)),
        ) + maybe(
            leaves && is_in_use(r, home->0) && !r.mission_control_active,
            StepView::UpdateLayout,
        ) + maybe(
            r.apps.contains(Pid { raw: w.pid }),
            StepView::SendRequest { pid: w.pid, request: AppRequest::WindowMaybeDestroyed(w) },
        ));
    }
}

/// What is recorded of a window that comes to a user space: it is visible there,
/// unless it is under way to another space, whose record then stays. Nothing else
/// that is known of it changes, nor of any other window.
pub open spec fn arrives(
    r: ReactorView,
    reg: RegistryView,
    after: RegistryView,
    wsid: WindowServerId,
    sid: SpaceId,
) -> bool {
    &&& after.servers.contains_key(wsid)
    &&& after.servers[wsid].visible
    &&& after.servers[wsid].space == if is_under_way(r, reg, wsid, sid) {
        reg.servers[wsid].space
    } else {
        Some(sid)
    }
    &&& reg.servers.contains_key(wsid) ==> after.servers[wsid].window_id
        == reg.servers[wsid].window_id && after.servers[wsid].info == reg.servers[wsid].info
    &&& !reg.servers.contains_key(wsid) ==> after.servers[wsid].window_id is None
        && after.servers[wsid].info is None
    &&& after.servers.remove(wsid) == reg.servers.remove(wsid)
}

/// The window server has described the window, or has been asked to.
pub open spec fn is_noticed(reg: RegistryView, wsid: WindowServerId) -> bool {
    reg.servers.contains_key(wsid) && (reg.servers[wsid].info is Some
        || reg.servers[wsid].observed)
}

/// A window that nobody has noticed is asked for, once: it is then on record as
/// noticed, and nothing else is done. While Mission Control is open, nothing is
/// done about a window that has been noticed.
pub proof fn law_appearance_of_a_window_that_is_not_acted_on(
    r: ReactorView,
    reg: RegistryView,
    wsid: WindowServerId,
    sid: SpaceId,
    kind: SpaceEventKind,
    seen: WindowSighting,
)
    requires
        r.manager.registry == Some(reg),
    ensures
        ({
            let (next, steps) = r.on_appeared(wsid, sid, kind, seen);
            let after = next.manager.registry->0;
            &&& kind is User && (!is_noticed(reg, wsid) || r.mission_control_active) ==> arrives(
                r,
                reg,
                after,
                wsid,
                sid,
            ) && after.windows == reg.windows
            &&& !is_noticed(reg, wsid) ==> {
                &&& is_noticed(after, wsid)
                &&& after.servers[wsid].observed
                &&& steps == seq![StepView::QueryWindow { wsid, space: sid, kind }]
                &&& next.tracks == r.tracks
                &&& next.manager.workspaces == r.manager.workspaces
            }
            &&& is_noticed(reg, wsid) && r.mission_control_active ==> steps.len() == 0
                && next.tracks == r.tracks && next.manager.workspaces == r.manager.workspaces
            &&& is_noticed(reg, wsid) && r.mission_control_active && kind is Fullscreen ==> next
                == r
        }),
{
    let (next, steps) = r.on_appeared(wsid, sid, kind, seen);
    let after = next.manager.registry->0;
    assert(after.servers.remove(wsid) =~= reg.servers.remove(wsid));
}

/// The process that owns the window: the one that the window server gives, or
/// else the one in its identifier.
pub open spec fn owner(reg: RegistryView, wsid: WindowServerId, w: WindowId) -> i32 {
    if reg.servers.contains_key(wsid) && reg.servers[wsid].info is Some {
        reg.servers[wsid].info->0.pid
    } else {
        w.pid
    }
}

/// Some window of the process, or the window itself, has gone into fullscreen.
pub open spec fn has_gone(r: ReactorView, w: WindowId, pid: i32) -> bool {
    exists|space: SpaceId, i: int|
        #![trigger r.tracks[space][i]]
        r.tracks.contains_key(space) && 0 <= i < r.tracks[space].len() && (
        r.tracks[space][i].window_id == Some(w) || r.tracks[space][i].pid == pid)
}

/// A noticed window that comes to a user space, and has not gone into fullscreen,
/// is moved to that space, unless it has been asked to take a frame. Nothing but
/// its arrival is recorded.
pub proof fn law_window_follows_to_a_user_space(
    r: ReactorView,
    reg: RegistryView,
    wsid: WindowServerId,
    sid: SpaceId,
    seen: WindowSighting,
    w: WindowId,
)
    requires
        r.manager.registry == Some(reg),
        is_noticed(reg, wsid),
        !r.mission_control_active,
        stands_for(reg, wsid, w),
        !has_gone(r, w, owner(reg, wsid, w)),
    ensures
        ({
            let (next, steps) = r.on_appeared(wsid, sid, SpaceEventKind::User, seen);
            let after = next.manager.registry->0;
            &&& steps == maybe(
                !r.pending_targets.contains(wsid),
                StepView::ReassignWindow { window_id: w, space: sid },
            )
            &&& arrives(r, reg, after, wsid, sid)
            &&& after.windows == reg.windows
            &&& next.manager.workspaces == r.manager.workspaces
        }),
{
    let here = r.with_arrival(wsid, sid);
    assert(here.tracks == r.tracks);
    assert(here.owner_of(wsid, w) == owner(reg, wsid, w));
    assert(!here.has_track_of(w, owner(reg, wsid, w))) by {
        if here.has_track_of(w, owner(reg, wsid, w)) {
            let (space, i) = choose|space: SpaceId, i: int|
                #![trigger here.tracks[space][i]]
                here.tracks.contains_key(space) && 0 <= i < here.tracks[space].len()
                    && crate::reactor::is_track_of(
                    here.tracks[space][i],
                    w,
                    owner(reg, wsid, w),
                );
            assert(r.tracks[space][i].window_id == Some(w) || r.tracks[space][i].pid == owner(
                reg,
                wsid,
                w,
            ));
        }
    }
    let (next, steps) = r.on_appeared(wsid, sid, SpaceEventKind::User, seen);
    let after = next.manager.registry->0;
    assert(after.servers.remove(wsid) =~= reg.servers.remove(wsid));
    assert(steps =~= maybe(
        !r.pending_targets.contains(wsid),
        StepView::ReassignWindow { window_id: w, space: sid },
    ));
}

/// A noticed window that comes back from fullscreen: its app is asked for its
/// windows, if the app is known. One that is not manageable leaves the layout,
/// which is laid out again if its space is active, and loses its assignment. One
/// that is assigned to the space joins its layout, if the space is active. Any
/// other is moved to the space.
pub proof fn law_window_comes_back_from_fullscreen(
    r: ReactorView,
    reg: RegistryView,
    wsid: WindowServerId,
    sid: SpaceId,
    seen: WindowSighting,
    w: WindowId,
)
    requires
        r.manager.registry == Some(reg),
        is_noticed(reg, wsid),
        !r.mission_control_active,
        stands_for(reg, wsid, w),
        has_gone(r, w, owner(reg, wsid, w)),
    ensures
        ({
            let (next, steps) = r.on_appeared(wsid, sid, SpaceEventKind::User, seen);
            let after = next.manager.registry->0;
            let pid = owner(reg, wsid, w);
            let asked = maybe(
                r.apps.contains(Pid { raw: pid }),
                StepView::SendRequest { pid, request: AppRequest::GetVisibleWindows },
            );
            let evicted = reg.windows.contains_key(w) && reg.windows[w].state is Some
                && !reg.windows[w].state->0.is_manageable;
            &&& !has_gone(next, w, pid)
            &&& evicted ==> {
                &&& steps == asked + seq![
                    StepView::SendLayoutEvent(LayoutEvent::WindowRemovedPreserveFloating(w)),
                ] + maybe(
                    reg.windows[w].workspace is Some && is_in_use(
                        r,
                        reg.windows[w].workspace->0.space,
                    ),
                    StepView::UpdateLayout,
                )
                &&& after.windows.contains_key(w) ==> after.windows[w].workspace is None
            }
            &&& !evicted ==> {
                &&& steps == asked + if is_assigned_to(reg, w, sid) {
                    if is_in_use(r, sid) {
                        seq![
                            StepView::SendLayoutEvent(LayoutEvent::WindowAdded(sid, w)),
                            StepView::UpdateLayout,
                        ]
                    } else {
                        seq![]
                    }
                } else {
                    seq![StepView::ReassignWindow { window_id: w, space: sid }]
                }
                &&& after.windows == reg.windows
                &&& next.manager.workspaces == r.manager.workspaces
            }
        }),
{
    let pid = owner(reg, wsid, w);
    let here = r.with_arrival(wsid, sid);
    let (space, i) = choose|space: SpaceId, i: int|
        #![trigger r.tracks[space][i]]
        r.tracks.contains_key(space) && 0 <= i < r.tracks[space].len() && (
        r.tracks[space][i].window_id == Some(w) || r.tracks[space][i].pid == pid);
    assert(crate::reactor::is_track_of(here.tracks[space][i], w, pid));
    assert(here.has_track_of(w, pid));
    assert(here.owner_of(wsid, w) == pid);
    let (next, steps) = r.on_appeared(wsid, sid, SpaceEventKind::User, seen);
    let asked = maybe(
        r.apps.contains(Pid { raw: pid }),
        StepView::SendRequest { pid, request: AppRequest::GetVisibleWindows },
    );
    let evicted = reg.windows.contains_key(w) && reg.windows[w].state is Some
        && !reg.windows[w].state->0.is_manageable;
    let want = if evicted {
        asked + seq![StepView::SendLayoutEvent(LayoutEvent::WindowRemovedPreserveFloating(w))]
            + maybe(
            reg.windows[w].workspace is Some && is_in_use(r, reg.windows[w].workspace->0.space),
            StepView::UpdateLayout,
        )
    } else {
        asked + if is_assigned_to(reg, w, sid) {
            if is_in_use(r, sid) {
                seq![
                    StepView::SendLayoutEvent(LayoutEvent::WindowAdded(sid, w)),
                    StepView::UpdateLayout,
                ]
            } else {
                seq![]
            }
        } else {
            seq![StepView::ReassignWindow { window_id: w, space: sid }]
        }
    };
    assert(steps =~= want);
    assert(next.tracks == here.without_tracks_of(w, pid).tracks);
    if has_gone(next, w, pid) {
        let (s, k) = choose|s: SpaceId, k: int|
            #![trigger next.tracks[s][k]]
            next.tracks.contains_key(s) && 0 <= k < next.tracks[s].len() && (
            next.tracks[s][k].window_id == Some(w) || next.tracks[s][k].pid == pid);
        let keep = |track: FullscreenWindowTrack| !crate::reactor::is_track_of(track, w, pid);
        assert(next.tracks[s] == here.tracks[s].filter(keep));
        here.tracks[s].lemma_filter_pred(keep, k);
    }
}

/// A noticed window that is not bound to any that is known, and comes to a user
/// space, has its app asked for its windows if some window of the process is in
/// fullscreen and the app is known; and nothing else is done.
pub proof fn law_unbound_window_comes_to_a_user_space(
    r: ReactorView,
    reg: RegistryView,
    wsid: WindowServerId,
    sid: SpaceId,
    seen: WindowSighting,
)
    requires
        r.manager.registry == Some(reg),
        is_noticed(reg, wsid),
        !r.mission_control_active,
        stands_for_none(reg, wsid),
    ensures
        ({
            let (next, steps) = r.on_appeared(wsid, sid, SpaceEventKind::User, seen);
            let pid = reg.servers[wsid].info->0.pid;
            &&& steps == maybe(
                reg.servers[wsid].info is Some && r.apps.contains(Pid { raw: pid }) && (exists|
                    space: SpaceId,
                    i: int,
                |
                    #![trigger r.tracks[space][i]]
                    r.tracks.contains_key(space) && 0 <= i < r.tracks[space].len()
                        && r.tracks[space][i].pid == pid),
                StepView::SendRequest { pid, request: AppRequest::GetVisibleWindows },
            )
            &&& next.tracks == r.tracks
            &&& next.manager.workspaces == r.manager.workspaces
            &&& arrives(r, reg, next.manager.registry->0, wsid, sid)
        }),
{
    let (next, steps) = r.on_appeared(wsid, sid, SpaceEventKind::User, seen);
    let pid = reg.servers[wsid].info->0.pid;
    let here = r.with_arrival(wsid, sid);
    assert(here.tracks == r.tracks);
    assert(next.manager.registry->0.servers.remove(wsid) =~= reg.servers.remove(wsid));
    if here.has_track_of_pid(pid) {
        let (space, i) = choose|space: SpaceId, i: int|
            #![trigger here.tracks[space][i]]
            here.tracks.contains_key(space) && 0 <= i < here.tracks[space].len()
                && here.tracks[space][i].pid == pid;
        assert(r.tracks[space][i].pid == pid);
    }
    if exists|space: SpaceId, i: int|
        #![trigger r.tracks[space][i]]
        r.tracks.contains_key(space) && 0 <= i < r.tracks[space].len() && r.tracks[space][i].pid
            == pid {
        let (space, i) = choose|space: SpaceId, i: int|
            #![trigger r.tracks[space][i]]
            r.tracks.contains_key(space) && 0 <= i < r.tracks[space].len()
                && r.tracks[space][i].pid == pid;
        assert(here.tracks[space][i].pid == pid);
    }
}

/// A noticed window that comes to a fullscreen space is tracked there with its
/// home. A known one leaves the layout of its home if it is assigned to it, which
/// is laid out again if it is active; for one that is not bound yet its app is
/// asked for its windows.
pub proof fn law_window_goes_into_fullscreen(
    r: ReactorView,
    reg: RegistryView,
    wsid: WindowServerId,
    sid: SpaceId,
    seen: WindowSighting,
    w: WindowId,
)
    requires
        r.manager.registry == Some(reg),
        is_noticed(reg, wsid),
        !r.mission_control_active,
    ensures
        ({
            let (next, steps) = r.on_appeared(wsid, sid, SpaceEventKind::Fullscreen, seen);
            let home = r.home_space(Some(w), seen.best_space);
            let leaves = home is Some && is_assigned_to(reg, w, home->0);
            let pid = reg.servers[wsid].info->0.pid;
            &&& stands_for(reg, wsid, w) ==> {
                &&& gains_track(r, next, sid, w.pid, Some(w), home)
                &&& steps == maybe(
                    leaves,
                    StepView::SendLayoutEvent(LayoutEvent::WindowRemovedPreserveFloating(w)),
                ) + maybe(leaves && is_in_use(r, home->0), StepView::UpdateLayout)
            }
            &&& stands_for_none(reg, wsid) && reg.servers[wsid].info is Some ==> {
                &&& gains_track(
                    r,
                    next,
                    sid,
                    pid,
                    None,
                    r.home_space(None, seen.best_space),
                )
                &&& steps == maybe(
                    r.apps.contains(Pid { raw: pid }),
                    StepView::SendRequest { pid, request: AppRequest::GetVisibleWindows },
                )
            }
            &&& stands_for_none(reg, wsid) && reg.servers[wsid].info is None ==> next == r
                && steps.len() == 0
        }),
{
    let (next, steps) = r.on_appeared(wsid, sid, SpaceEventKind::Fullscreen, seen);
    assert(next.tracks.remove(sid) =~= r.tracks.remove(sid));
    let home = r.home_space(Some(w), seen.best_space);
    let leaves = home is Some && is_assigned_to(reg, w, home->0);
    let pid = reg.servers[wsid].info->0.pid;
    if stands_for(reg, wsid, w) {
        assert(steps =~= maybe(
            leaves,
            StepView::SendLayoutEvent(LayoutEvent::WindowRemovedPreserveFloating(w)),
        ) + maybe(leaves && is_in_use(r, home->0), StepView::UpdateLayout));
    } else if stands_for_none(reg, wsid) && reg.servers[wsid].info is Some {
        assert(steps =~= maybe(
            r.apps.contains(Pid { raw: pid }),
            StepView::SendRequest { pid, request: AppRequest::GetVisibleWindows },
        ));
    }
}

/// What is done about the answer to a query: nothing if there is none, or for a
/// window that is on another layer than the normal one or is too small. A window
/// of a user space is taken over, and its app is asked for its windows if it is
/// known, and announced if not. One of a fullscreen space is tracked, and its app
/// is asked if it is known.
pub proof fn law_answer_to_a_query(
    r: ReactorView,
    reg: RegistryView,
    wsid: WindowServerId,
    sid: SpaceId,
    window: ObservedWindow,
    seen: WindowSighting,
    kind: SpaceEventKind,
)
    requires
        r.manager.registry == Some(reg),
    ensures
        r.on_window_observed(wsid, sid, kind, None, seen) == (r, Seq::<StepView>::empty()),
        window.info.layer != 0 || window.too_small ==> r.on_window_observed(
            wsid,
            sid,
            kind,
            Some(window),
            seen,
        ) == (r, Seq::<StepView>::empty()),
        window.info.layer == 0 && !window.too_small ==> {
            let pid = window.info.pid;
            let (in_user, user_steps) = r.on_window_observed(
                wsid,
                sid,
                SpaceEventKind::User,
                Some(window),
                seen,
            );
            let (in_full, full_steps) = r.on_window_observed(
                wsid,
                sid,
                SpaceEventKind::Fullscreen,
                Some(window),
                seen,
            );
            let known = if reg.servers.contains_key(wsid) {
                reg.servers[wsid].window_id
            } else {
                None
            };
            &&& in_user == r
            &&& user_steps.len() == 2
            &&& user_steps[0] == StepView::UpdateWindowServerInfo(window.info)
            &&& user_steps[1] == if r.apps.contains(Pid { raw: pid }) {
                StepView::SendRequest { pid, request: AppRequest::GetVisibleWindows }
            } else {
                StepView::AnnounceApp { pid }
            }
            &&& gains_track(
                r,
                in_full,
                sid,
                pid,
                known,
                r.home_space(known, seen.best_space),
            )
            &&& full_steps == maybe(
                r.apps.contains(Pid { raw: pid }),
                StepView::SendRequest { pid, request: AppRequest::GetVisibleWindows },
            )
        },
{
    let (in_full, full_steps) = r.on_window_observed(
        wsid,
        sid,
        SpaceEventKind::Fullscreen,
        Some(window),
        seen,
    );
    assert(in_full.tracks.remove(sid) =~= r.tracks.remove(sid));
    assert(full_steps =~= maybe(
        window.info.layer == 0 && !window.too_small && r.apps.contains(
            Pid { raw: window.info.pid },
        ),
        StepView::SendRequest {
            pid: window.info.pid,
            request: AppRequest::GetVisibleWindows,
        },
    ));
}

/// When Mission Control is entered the mouse drags nothing, no window is left out
/// of the layout, and Mission Control is open; nothing else changes.
pub proof fn law_mission_control_stops_dragging(r: ReactorView)
    ensures
        ({
            let next = r.on_mission_control_entered();
            &&& next.drag_state is Inactive
            &&& next.skip_layout_for_window is None
            &&& next.mission_control_active
            &&& next.manager == r.manager
            &&& next.spaces == r.spaces
            &&& next.tracks == r.tracks
            &&& next.pending_change == r.pending_change
            &&& next.pending_targets == r.pending_targets
        }),
{
}

/// At first nothing is known of screens, spaces and apps, nothing is under way,
/// and Mission Control is not open.
pub proof fn law_nothing_is_known_at_first(m: ManagerView)
    ensures
        ({
            let r = ReactorView::idle(m);
            &&& r.manager == m
            &&& r.spaces.screens.len() == 0
            &&& r.spaces.fullscreen_spaces.len() == 0
            &&& r.spaces.active_spaces.len() == 0
            &&& r.spaces.display_space_ids.len() == 0
            &&& r.spaces.last_user_space_by_display.len() == 0
            &&& r.spaces.command_space is None
            &&& !r.spaces.has_seen_display_set
            &&& r.tracks.dom() =~= Set::empty()
            &&& forall|pid: Pid| !#[trigger] r.apps.contains(pid)
            &&& forall|wsid: WindowServerId| !#[trigger] r.pending_targets.contains(wsid)
            &&& r.pending_change is None
            &&& r.skip_layout_for_window is None
            &&& r.drag_state is Inactive
            &&& r.stale_cleanup_state is Enabled
            &&& !r.mission_control_active
        }),
{
}

} // verus!
