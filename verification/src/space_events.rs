//! What is decided on events of native spaces.
use crate::ids::{Pid, SpaceId, WindowId, WindowServerId};
use crate::lists::copy_list;
use crate::reactor::{
    AppRequest, DeltaView, DisplaySpace, DragState, ForwardedSpaceState, FullscreenSpaceTrack,
    FullscreenWindowTrack, LayoutEvent, ObservedWindow, Reactor, ReactorView, ScreenInfo,
    SnapshotView, SpaceEventKind, SpaceStateView, SpaceStep, StaleCleanupState, StepView,
    TopologyWindowDelta, WindowSighting,
};
use crate::window::Extent;
use crate::window_registry::WindowServerRecord;
use vstd::prelude::*;

verus! {

impl ReactorView {
    /// The window out of its workspace, and nothing known of it any more.
    pub open spec fn without_gone_window(self, window_id: WindowId) -> Self {
        let out = self.manager.without_window(window_id);
        ReactorView {
            manager: out.with_registry(out.records().without_windows(set![window_id])),
            ..self
        }
    }

    /// A window of a fullscreen space is gone.
    pub open spec fn on_fullscreen_destroyed(
        self,
        wsid: WindowServerId,
        sid: SpaceId,
        seen: WindowSighting,
    ) -> (Self, Seq<StepView>) {
        let server = self.records().server(wsid);
        match (server.window_id, server.info) {
            (None, None) => (self, Seq::empty()),
            (None, Some(info)) => (
                self.with_track(sid, info.pid, None, self.home_space(None, seen.best_space)),
                Seq::empty(),
            ),
            (Some(window_id), _) => {
                let home = self.home_space(Some(window_id), seen.best_space);
                (
                    self.with_track(sid, window_id.pid, Some(window_id), home),
                    self.leaves_for_fullscreen(window_id, home, !self.mission_control_active)
                        + self.request(window_id.pid, AppRequest::WindowMaybeDestroyed(window_id)),
                )
            },
        }
    }

    /// The window leaves the layout of its home space, which is laid out again
    /// if it is active and `may_update`.
    pub open spec fn leaves_for_fullscreen(
        self,
        window_id: WindowId,
        home: Option<SpaceId>,
        may_update: bool,
    ) -> Seq<StepView> {
        match home {
            Some(space) => self.layout_removal(window_id, space) + crate::reactor::when(
                self.assigned_space(window_id) == Some(space) && self.is_active(space)
                    && may_update,
                StepView::UpdateLayout,
            ),
            None => Seq::empty(),
        }
    }

    /// What is done outside about a window that has left a user space: it leaves
    /// the layout of that space, if it is assigned to it, and its app is asked
    /// whether it still exists.
    pub open spec fn departure_steps(self, wsid: WindowServerId, sid: SpaceId) -> Seq<StepView> {
        match self.records().server(wsid).window_id {
            None => Seq::empty(),
            Some(window_id) => self.layout_removal(window_id, sid) + crate::reactor::when(
                self.assigned_space(window_id) == Some(sid) && !self.mission_control_active,
                StepView::UpdateLayout,
            ) + self.request(window_id.pid, AppRequest::WindowMaybeDestroyed(window_id)),
        }
    }

    /// The window is recorded as hidden in the user space that it has left; it
    /// is forgotten where the window server no longer has it. Nothing is
    /// recorded where the event is stale.
    pub open spec fn with_departure(
        self,
        wsid: WindowServerId,
        sid: SpaceId,
        seen: WindowSighting,
    ) -> Self {
        if self.is_stale(wsid, sid) {
            self
        } else {
            let server = self.records().server(wsid);
            let next = self.with_records(
                self.records().put_server(
                    wsid,
                    WindowServerRecord { space: Some(sid), visible: false, ..server },
                ),
            );
            match server.window_id {
                Some(window_id) if !seen.ordered_in => next.without_gone_window(window_id),
                _ => next,
            }
        }
    }

    /// A window is gone from a user space.
    pub open spec fn on_user_destroyed(
        self,
        wsid: WindowServerId,
        sid: SpaceId,
        seen: WindowSighting,
    ) -> (Self, Seq<StepView>) {
        (self.with_departure(wsid, sid, seen), self.departure_steps(wsid, sid))
    }

    pub open spec fn on_destroyed(
        self,
        wsid: WindowServerId,
        sid: SpaceId,
        kind: SpaceEventKind,
        seen: WindowSighting,
    ) -> (Self, Seq<StepView>) {
        match kind {
            SpaceEventKind::Fullscreen => self.on_fullscreen_destroyed(wsid, sid, seen),
            SpaceEventKind::User => self.on_user_destroyed(wsid, sid, seen),
        }
    }

    /// What is done about a window that comes back from fullscreen, if it or
    /// another one of its process had gone there: the state, and the steps.
    pub open spec fn restored(self, wsid: WindowServerId, sid: SpaceId, window_id: WindowId) -> (
        Self,
        Seq<StepView>,
    ) {
        let pid = self.owner_of(wsid, window_id);
        let next = self.without_tracks_of(window_id, pid);
        let asked = self.request(pid, AppRequest::GetVisibleWindows);
        match self.records().window(window_id).state {
            Some(state) if !state.is_manageable => (
                ReactorView { manager: next.manager.without_window(window_id), ..next },
                asked + seq![
                    StepView::SendLayoutEvent(
                        LayoutEvent::WindowRemovedPreserveFloating(window_id),
                    ),
                ] + crate::reactor::when(
                    match self.assigned_space(window_id) {
                        Some(space) => self.is_active(space),
                        None => false,
                    },
                    StepView::UpdateLayout,
                ),
            ),
            _ => if self.assigned_space(window_id) == Some(sid) {
                if self.is_active(sid) && self.records().server(wsid).visible {
                    (
                        next,
                        asked + seq![
                            StepView::SendLayoutEvent(LayoutEvent::WindowAdded(sid, window_id)),
                            StepView::UpdateLayout,
                        ],
                    )
                } else {
                    (next, asked)
                }
            } else {
                (next, asked + seq![StepView::ReassignWindow { window_id, space: sid }])
            },
        }
    }

    /// The process that owns the window.
    pub open spec fn owner_of(self, wsid: WindowServerId, window_id: WindowId) -> i32 {
        match self.records().server(wsid).info {
            Some(info) => info.pid,
            None => window_id.pid,
        }
    }

    /// A known window has come to a user space.
    pub open spec fn on_known_in_user_space(self, wsid: WindowServerId, sid: SpaceId) -> (
        Self,
        Seq<StepView>,
    ) {
        let server = self.records().server(wsid);
        match server.window_id {
            Some(window_id) => if self.has_track_of(window_id, self.owner_of(wsid, window_id)) {
                self.restored(wsid, sid, window_id)
            } else {
                let next = self.without_tracks_of(window_id, self.owner_of(wsid, window_id));
                (
                    next,
                    crate::reactor::when(
                        !self.pending_targets.contains(wsid),
                        StepView::ReassignWindow { window_id, space: sid },
                    ),
                )
            },
            None => (
                self,
                match server.info {
                    Some(info) if self.has_track_of_pid(info.pid) => self.request(
                        info.pid,
                        AppRequest::GetVisibleWindows,
                    ),
                    _ => Seq::empty(),
                },
            ),
        }
    }

    /// A known window has come to a fullscreen space.
    pub open spec fn on_known_in_fullscreen(
        self,
        wsid: WindowServerId,
        sid: SpaceId,
        seen: WindowSighting,
    ) -> (Self, Seq<StepView>) {
        let server = self.records().server(wsid);
        match (server.window_id, server.info) {
            (Some(window_id), _) => {
                let home = self.home_space(Some(window_id), seen.best_space);
                (
                    self.with_track(sid, window_id.pid, Some(window_id), home),
                    self.leaves_for_fullscreen(window_id, home, true),
                )
            },
            (None, Some(info)) => (
                self.with_track(sid, info.pid, None, self.home_space(None, seen.best_space)),
                self.request(info.pid, AppRequest::GetVisibleWindows),
            ),
            (None, None) => (self, Seq::empty()),
        }
    }

    /// The window is recorded as visible in the user space; the record of its
    /// space stays where the event is stale.
    pub open spec fn with_arrival(self, wsid: WindowServerId, sid: SpaceId) -> Self {
        let server = self.records().server(wsid);
        self.with_records(
            self.records().put_server(
                wsid,
                WindowServerRecord {
                    space: if self.is_stale(wsid, sid) {
                        server.space
                    } else {
                        Some(sid)
                    },
                    visible: true,
                    ..server
                },
            ),
        )
    }

    pub open spec fn on_appeared(
        self,
        wsid: WindowServerId,
        sid: SpaceId,
        kind: SpaceEventKind,
        seen: WindowSighting,
    ) -> (Self, Seq<StepView>) {
        let here = match kind {
            SpaceEventKind::User => self.with_arrival(wsid, sid),
            SpaceEventKind::Fullscreen => self,
        };
        let server = here.records().server(wsid);
        if server.info is None && !server.observed {
            (
                here.with_records(
                    here.records().put_server(
                        wsid,
                        WindowServerRecord { observed: true, ..server },
                    ),
                ),
                seq![StepView::QueryWindow { wsid, space: sid, kind }],
            )
        } else if here.mission_control_active {
            (here, Seq::empty())
        } else {
            match kind {
                SpaceEventKind::User => here.on_known_in_user_space(wsid, sid),
                SpaceEventKind::Fullscreen => here.on_known_in_fullscreen(wsid, sid, seen),
            }
        }
    }

    /// The window server has answered what it knows of a window that was not
    /// known before.
    pub open spec fn on_window_observed(
        self,
        wsid: WindowServerId,
        sid: SpaceId,
        kind: SpaceEventKind,
        answer: Option<ObservedWindow>,
        seen: WindowSighting,
    ) -> (Self, Seq<StepView>) {
        match answer {
            None => (self, Seq::empty()),
            Some(window) => if window.info.layer != 0 || window.too_small {
                (self, Seq::empty())
            } else {
                match kind {
                    SpaceEventKind::Fullscreen => {
                        let window_id = self.records().server(wsid).window_id;
                        (
                            self.with_track(
                                sid,
                                window.info.pid,
                                window_id,
                                self.home_space(window_id, seen.best_space),
                            ),
                            self.request(window.info.pid, AppRequest::GetVisibleWindows),
                        )
                    },
                    SpaceEventKind::User => (
                        self,
                        seq![
                            StepView::UpdateWindowServerInfo(window.info),
                            if self.apps.contains(Pid { raw: window.info.pid }) {
                                StepView::SendRequest {
                                    pid: window.info.pid,
                                    request: AppRequest::GetVisibleWindows,
                                }
                            } else {
                                StepView::AnnounceApp { pid: window.info.pid }
                            },
                        ],
                    ),
                }
            },
        }
    }

    /// Mission Control has been entered.
    pub open spec fn on_mission_control_entered(self) -> Self {
        ReactorView {
            drag_state: DragState::Inactive,
            skip_layout_for_window: None,
            mission_control_active: true,
            ..self
        }
    }

    /// The snapshot says nothing new but which space commands go to.
    pub open spec fn only_command_space_differs(self, s: SnapshotView) -> bool {
        &&& !self.mission_control_active
        &&& self.pending_change is None
        &&& s.screens.len() > 0
        &&& same_screens(s.screens, self.spaces.screens)
        &&& s.fullscreen_spaces.to_set() == self.spaces.fullscreen_spaces.to_set()
        &&& s.has_seen_display_set == self.spaces.has_seen_display_set
        &&& s.active_spaces.to_set() == self.spaces.active_spaces.to_set()
        &&& same_display_spaces(s.display_space_ids, self.spaces.display_space_ids)
        &&& same_display_spaces(
            s.last_user_space_by_display,
            self.spaces.last_user_space_by_display,
        )
        &&& s.space_remaps.len() == 0
        &&& !s.display_set_changed
        &&& !s.should_force_refresh_layout
        &&& s.resized_spaces.len() == 0
        &&& s.topology_window_delta is None
        &&& s.command_space != self.spaces.command_space
    }

    /// A new snapshot of the screens and spaces.
    pub open spec fn on_space_state(self, s: SnapshotView) -> (Self, Seq<StepView>) {
        if self.only_command_space_differs(s) {
            (
                ReactorView {
                    spaces: SpaceStateView { command_space: s.command_space, ..self.spaces },
                    ..self
                },
                Seq::empty(),
            )
        } else {
            let pruned = display_set_steps(s);
            let base = ReactorView {
                pending_targets: if s.display_set_changed {
                    Set::empty()
                } else {
                    self.pending_targets
                },
                stale_cleanup_state: if s.screens.len() == 0 {
                    StaleCleanupState::Suppressed
                } else {
                    StaleCleanupState::Enabled
                },
                spaces: SpaceStateView {
                    has_seen_display_set: s.has_seen_display_set,
                    fullscreen_spaces: s.fullscreen_spaces,
                    ..self.spaces
                },
                ..self
            };
            if s.screens.len() == 0 {
                (
                    ReactorView {
                        spaces: SpaceStateView {
                            screens: Seq::empty(),
                            command_space: None,
                            display_space_ids: Seq::empty(),
                            ..base.spaces
                        },
                        ..base
                    },
                    pruned + crate::reactor::when(
                        self.spaces.screens.len() > 0,
                        StepView::ExposeAllSpaces,
                    ) + seq![
                        StepView::RecomputeActiveSpaces,
                        StepView::ClearWindowServerInfo,
                        StepView::TryApplyPendingSpaceChange,
                    ],
                )
            } else {
                let next = ReactorView {
                    spaces: SpaceStateView {
                        screens: s.screens,
                        command_space: s.command_space,
                        display_space_ids: s.display_space_ids,
                        last_user_space_by_display: s.last_user_space_by_display,
                        ..base.spaces
                    },
                    ..base
                };
                if self.mission_control_active {
                    (ReactorView { pending_change: Some(s), ..next }, pruned)
                } else {
                    (next, pruned + reconcile_steps(s))
                }
            }
        }
    }
}

pub open spec fn same_name(a: Option<String>, b: Option<String>) -> bool {
    crate::manager_state::name_view(a) == crate::manager_state::name_view(b)
}

pub open spec fn same_screen(a: ScreenInfo, b: ScreenInfo) -> bool {
    a.id == b.id && a.frame == b.frame && a.display_uuid@ == b.display_uuid@ && same_name(
        a.name,
        b.name,
    ) && a.space == b.space
}

pub open spec fn same_screens(a: Seq<ScreenInfo>, b: Seq<ScreenInfo>) -> bool {
    a.len() == b.len() && forall|i: int| 0 <= i < a.len() ==> same_screen(#[trigger] a[i], b[i])
}

pub open spec fn same_display_spaces(a: Seq<DisplaySpace>, b: Seq<DisplaySpace>) -> bool {
    a.len() == b.len() && forall|i: int|
        0 <= i < a.len() ==> (#[trigger] a[i]).display_uuid@ == b[i].display_uuid@ && a[i].space
            == b[i].space
}

/// The spaces that the screens show.
pub open spec fn shown_spaces(screens: Seq<ScreenInfo>) -> Seq<Option<SpaceId>> {
    screens.map_values(|screen: ScreenInfo| screen.space)
}

pub open spec fn display_names(screens: Seq<ScreenInfo>) -> Seq<Seq<char>> {
    screens.map_values(|screen: ScreenInfo| screen.display_uuid@)
}

/// What a change of displays brings with it.
pub open spec fn display_set_steps(s: SnapshotView) -> Seq<StepView> {
    if s.display_set_changed {
        seq![
            StepView::PruneDisplayState(display_names(s.screens)),
            StepView::ClearPendingTargets,
        ]
    } else {
        Seq::empty()
    }
}

/// The display of each screen that shows a space and has a display name.
pub open spec fn display_steps(screens: Seq<ScreenInfo>) -> Seq<StepView>
    decreases screens.len(),
{
    if screens.len() == 0 {
        Seq::empty()
    } else {
        let screen = screens.last();
        let before = display_steps(screens.drop_last());
        match screen.space {
            Some(space) if screen.display_uuid@.len() > 0 => before.push(
                StepView::UpdateSpaceDisplay { space, display_uuid: screen.display_uuid@ },
            ),
            _ => before,
        }
    }
}

pub open spec fn remap_steps(remaps: Seq<(SpaceId, SpaceId)>) -> Seq<StepView> {
    remaps.map_values(
        |remap: (SpaceId, SpaceId)| StepView::RemapSpace { previous: remap.0, space: remap.1 },
    )
}

pub open spec fn resize_steps(resized: Seq<(SpaceId, Extent)>) -> Seq<StepView> {
    resized.map_values(
        |entry: (SpaceId, Extent)| StepView::ExposeResized { space: entry.0, size: entry.1 },
    )
}

/// The windows that have left, then those that have come.
pub open spec fn delta_steps(delta: Option<DeltaView>) -> Seq<StepView> {
    match delta {
        Some(delta) => delta.disappeared.map_values(
            |entry: (WindowServerId, SpaceId)|
                StepView::WindowDisappeared { wsid: entry.0, space: entry.1 },
        ) + delta.appeared.map_values(
            |entry: (WindowServerId, SpaceId)|
                StepView::WindowAppeared { wsid: entry.0, space: entry.1 },
        ),
        None => Seq::empty(),
    }
}

/// What a snapshot that is taken over brings with it, in order.
pub open spec fn reconcile_steps(s: SnapshotView) -> Seq<StepView> {
    seq![
        StepView::NotifySpacesUpdated,
        StepView::ApplyActiveSpaces(s.active_spaces),
        StepView::RestoreWindowsAfterFullscreenExit(shown_spaces(s.screens)),
    ] + display_steps(s.screens) + remap_steps(s.space_remaps) + resize_steps(s.resized_spaces)
        + delta_steps(s.topology_window_delta) + seq![
        StepView::FinalizeSpaceChange(shown_spaces(s.screens)),
        StepView::TryApplyPendingSpaceChange,
    ] + (if s.should_force_refresh_layout {
        seq![StepView::ForceRefreshAllWindows, StepView::UpdateLayoutAfterTopologyChange]
    } else {
        Seq::empty()
    }) + seq![StepView::ReconcilePhantomWindows]
}

fn is_same_name(a: &Option<String>, b: &Option<String>) -> (r: bool)
    ensures
        r == same_name(*a, *b),
{
    match (a, b) {
        (Some(x), Some(y)) => *x == *y,
        (None, None) => true,
        _ => false,
    }
}

fn are_same_screens(a: &Vec<ScreenInfo>, b: &Vec<ScreenInfo>) -> (r: bool)
    ensures
        r == same_screens(a@, b@),
{
    if a.len() != b.len() {
        return false;
    }
    for i in 0..a.len()
        invariant
            a@.len() == b@.len(),
            forall|k: int| 0 <= k < i ==> same_screen(#[trigger] a@[k], b@[k]),
    {
        let same = a[i].id == b[i].id && a[i].frame == b[i].frame && a[i].display_uuid
            == b[i].display_uuid && is_same_name(&a[i].name, &b[i].name) && a[i].space
            == b[i].space;
        if !same {
            assert(!same_screen(a@[i as int], b@[i as int]));
            return false;
        }
    }
    true
}

fn are_same_display_spaces(a: &Vec<DisplaySpace>, b: &Vec<DisplaySpace>) -> (r: bool)
    ensures
        r == same_display_spaces(a@, b@),
{
    if a.len() != b.len() {
        return false;
    }
    for i in 0..a.len()
        invariant
            a@.len() == b@.len(),
            forall|k: int|
                0 <= k < i ==> (#[trigger] a@[k]).display_uuid@ == b@[k].display_uuid@
                    && a@[k].space == b@[k].space,
    {
        if !(a[i].display_uuid == b[i].display_uuid && a[i].space == b[i].space) {
            return false;
        }
    }
    true
}

fn is_listed(spaces: &Vec<SpaceId>, space: SpaceId) -> (r: bool)
    ensures
        r == spaces@.contains(space),
{
    for i in 0..spaces.len()
        invariant
            forall|k: int| 0 <= k < i ==> #[trigger] spaces@[k] != space,
    {
        if spaces[i] == space {
            return true;
        }
    }
    false
}

fn are_all_listed(a: &Vec<SpaceId>, b: &Vec<SpaceId>) -> (r: bool)
    ensures
        r == a@.to_set().subset_of(b@.to_set()),
{
    for i in 0..a.len()
        invariant
            forall|k: int| 0 <= k < i ==> b@.contains(#[trigger] a@[k]),
    {
        if !is_listed(b, a[i]) {
            assert(a@.to_set().contains(a@[i as int]));
            return false;
        }
    }
    assert forall|s: SpaceId| a@.to_set().contains(s) implies b@.to_set().contains(s) by {
        let k = choose|k: int| 0 <= k < a@.len() && a@[k] == s;
        assert(b@.contains(a@[k]));
    }
    true
}

/// The two lists name the same spaces.
fn are_same_spaces(a: &Vec<SpaceId>, b: &Vec<SpaceId>) -> (r: bool)
    ensures
        r == (a@.to_set() == b@.to_set()),
{
    let r = are_all_listed(a, b) && are_all_listed(b, a);
    assert(r ==> a@.to_set() =~= b@.to_set());
    r
}

fn list_shown_spaces(screens: &Vec<ScreenInfo>) -> (r: Vec<Option<SpaceId>>)
    ensures
        r@ == shown_spaces(screens@),
{
    let mut r: Vec<Option<SpaceId>> = Vec::new();
    for i in 0..screens.len()
        invariant
            r@ =~= shown_spaces(screens@.take(i as int)),
    {
        r.push(screens[i].space);
    }
    assert(screens@.take(screens@.len() as int) =~= screens@);
    r
}

fn push_display_set_steps(steps: &mut Vec<SpaceStep>, state: &ForwardedSpaceState)
    ensures
        crate::reactor::steps_view(final(steps)@) == crate::reactor::steps_view(old(steps)@)
            + display_set_steps(state@),
{
    if state.display_set_changed {
        let mut names: Vec<String> = Vec::new();
        for i in 0..state.screens.len()
            invariant
                crate::manager_state::text_views(names@) =~= display_names(
                    state.screens@.take(i as int),
                ),
        {
            let ghost before = names@;
            names.push(state.screens[i].display_uuid.clone());
            assert(crate::manager_state::text_views(names@) =~= crate::manager_state::text_views(
                before,
            ).push(state.screens@[i as int].display_uuid@));
        }
        assert(state.screens@.take(state.screens@.len() as int) =~= state.screens@);
        push_step(steps, SpaceStep::PruneDisplayState(names));
        push_step(steps, SpaceStep::ClearPendingTargets);
    }
    assert(crate::reactor::steps_view(steps@) =~= crate::reactor::steps_view(old(steps)@)
        + display_set_steps(state@));
}

fn push_display_steps(steps: &mut Vec<SpaceStep>, screens: &Vec<ScreenInfo>)
    ensures
        crate::reactor::steps_view(final(steps)@) == crate::reactor::steps_view(old(steps)@)
            + display_steps(screens@),
{
    assert(crate::reactor::steps_view(steps@) =~= crate::reactor::steps_view(old(steps)@)
        + display_steps(screens@.take(0)));
    for i in 0..screens.len()
        invariant
            crate::reactor::steps_view(steps@) == crate::reactor::steps_view(old(steps)@)
                + display_steps(screens@.take(i as int)),
    {
        assert(screens@.take(i + 1).drop_last() =~= screens@.take(i as int));
        if let Some(space) = screens[i].space {
            if !screens[i].display_uuid.as_str().is_empty() {
                push_step(
                    steps,
                    SpaceStep::UpdateSpaceDisplay {
                        space,
                        display_uuid: screens[i].display_uuid.clone(),
                    },
                );
            }
        }
        assert(crate::reactor::steps_view(steps@) =~= crate::reactor::steps_view(old(steps)@)
            + display_steps(screens@.take(i + 1)));
    }
    assert(screens@.take(screens@.len() as int) =~= screens@);
}

fn push_remap_steps(steps: &mut Vec<SpaceStep>, remaps: &Vec<(SpaceId, SpaceId)>)
    ensures
        crate::reactor::steps_view(final(steps)@) == crate::reactor::steps_view(old(steps)@)
            + remap_steps(remaps@),
{
    for i in 0..remaps.len()
        invariant
            crate::reactor::steps_view(steps@) =~= crate::reactor::steps_view(old(steps)@)
                + remap_steps(remaps@.take(i as int)),
    {
        push_step(steps, SpaceStep::RemapSpace { previous: remaps[i].0, space: remaps[i].1 });
    }
    assert(remaps@.take(remaps@.len() as int) =~= remaps@);
}

fn push_resize_steps(steps: &mut Vec<SpaceStep>, resized: &Vec<(SpaceId, Extent)>)
    ensures
        crate::reactor::steps_view(final(steps)@) == crate::reactor::steps_view(old(steps)@)
            + resize_steps(resized@),
{
    for i in 0..resized.len()
        invariant
            crate::reactor::steps_view(steps@) =~= crate::reactor::steps_view(old(steps)@)
                + resize_steps(resized@.take(i as int)),
    {
        push_step(steps, SpaceStep::ExposeResized { space: resized[i].0, size: resized[i].1 });
    }
    assert(resized@.take(resized@.len() as int) =~= resized@);
}

fn push_delta_steps(steps: &mut Vec<SpaceStep>, delta: &Option<TopologyWindowDelta>)
    ensures
        crate::reactor::steps_view(final(steps)@) == crate::reactor::steps_view(old(steps)@)
            + delta_steps(crate::reactor::delta_view(*delta)),
{
    if let Some(delta) = delta {
        let ghost left = |entry: (WindowServerId, SpaceId)|
            StepView::WindowDisappeared { wsid: entry.0, space: entry.1 };
        let ghost came = |entry: (WindowServerId, SpaceId)|
            StepView::WindowAppeared { wsid: entry.0, space: entry.1 };
        for i in 0..delta.disappeared.len()
            invariant
                left == (|entry: (WindowServerId, SpaceId)|
                    StepView::WindowDisappeared { wsid: entry.0, space: entry.1 }),
                crate::reactor::steps_view(steps@) =~= crate::reactor::steps_view(old(steps)@)
                    + delta.disappeared@.take(i as int).map_values(left),
        {
            let entry = delta.disappeared[i];
            push_step(steps, SpaceStep::WindowDisappeared { wsid: entry.0, space: entry.1 });
        }
        assert(delta.disappeared@.take(delta.disappeared@.len() as int) =~= delta.disappeared@);
        let ghost middle = crate::reactor::steps_view(steps@);
        for i in 0..delta.appeared.len()
            invariant
                came == (|entry: (WindowServerId, SpaceId)|
                    StepView::WindowAppeared { wsid: entry.0, space: entry.1 }),
                crate::reactor::steps_view(steps@) =~= middle + delta.appeared@.take(
                    i as int,
                ).map_values(came),
        {
            let entry = delta.appeared[i];
            push_step(steps, SpaceStep::WindowAppeared { wsid: entry.0, space: entry.1 });
        }
        assert(delta.appeared@.take(delta.appeared@.len() as int) =~= delta.appeared@);
    }
    assert(crate::reactor::steps_view(steps@) =~= crate::reactor::steps_view(old(steps)@)
        + delta_steps(crate::reactor::delta_view(*delta)));
}

fn push_reconcile_steps(steps: &mut Vec<SpaceStep>, state: &ForwardedSpaceState)
    ensures
        crate::reactor::steps_view(final(steps)@) == crate::reactor::steps_view(old(steps)@)
            + reconcile_steps(state@),
{
    push_step(steps, SpaceStep::NotifySpacesUpdated);
    push_step(steps, SpaceStep::ApplyActiveSpaces(copy_list(&state.active_spaces)));
    push_step(
        steps,
        SpaceStep::RestoreWindowsAfterFullscreenExit(list_shown_spaces(&state.screens)),
    );
    push_display_steps(steps, &state.screens);
    push_remap_steps(steps, &state.space_remaps);
    push_resize_steps(steps, &state.resized_spaces);
    push_delta_steps(steps, &state.topology_window_delta);
    push_step(steps, SpaceStep::FinalizeSpaceChange(list_shown_spaces(&state.screens)));
    push_step(steps, SpaceStep::TryApplyPendingSpaceChange);
    if state.should_force_refresh_layout {
        push_step(steps, SpaceStep::ForceRefreshAllWindows);
        push_step(steps, SpaceStep::UpdateLayoutAfterTopologyChange);
    }
    push_step(steps, SpaceStep::ReconcilePhantomWindows);
    assert(crate::reactor::steps_view(steps@) =~= crate::reactor::steps_view(old(steps)@)
        + reconcile_steps(state@));
}

/// The events of native spaces.
pub struct SpaceEventHandler;

fn push_step(steps: &mut Vec<SpaceStep>, step: SpaceStep)
    ensures
        final(steps)@ == old(steps)@.push(step),
        crate::reactor::steps_view(final(steps)@) == crate::reactor::steps_view(old(steps)@).push(
            step@,
        ),
{
    steps.push(step);
    assert(crate::reactor::steps_view(steps@) =~= crate::reactor::steps_view(old(steps)@).push(
        step@,
    ));
}

impl Reactor {
    /// The space of the workspace that the window is assigned to.
    pub fn assigned_space_for_window_id(&self, window_id: WindowId) -> (r: Option<SpaceId>)
        requires
            self@.manager.registry is Some,
        ensures
            r == self@.assigned_space(window_id),
    {
        match self.workspaces.workspace_info_for_window_any(window_id) {
            Some(info) => Some(info.space),
            None => None,
        }
    }

    pub fn is_space_active(&self, space: SpaceId) -> (r: bool)
        ensures
            r == self@.is_active(space),
    {
        for i in 0..self.space_state.active_spaces.len()
            invariant
                forall|k: int| 0 <= k < i ==> #[trigger] self.space_state.active_spaces@[k] != space,
        {
            if self.space_state.active_spaces[i] == space {
                return true;
            }
        }
        false
    }

    /// The space of the first screen that shows one.
    fn first_known_space(&self) -> (r: Option<SpaceId>)
        ensures
            r == crate::reactor::first_space(self@.spaces.screens),
    {
        let ghost screens = self.space_state.screens@;
        assert(screens.skip(0) =~= screens);
        for i in 0..self.space_state.screens.len()
            invariant
                screens == self.space_state.screens@,
                crate::reactor::first_space(screens) == crate::reactor::first_space(
                    screens.skip(i as int),
                ),
        {
            assert(screens.skip(i as int).drop_first() =~= screens.skip(i + 1));
            assert(screens.skip(i as int)[0] == screens[i as int]);
            if self.space_state.screens[i].space.is_some() {
                return self.space_state.screens[i].space;
            }
        }
        None
    }

    fn resolve_last_known_user_space(
        &self,
        window_id: Option<WindowId>,
        best_space: Option<SpaceId>,
    ) -> (r: Option<SpaceId>)
        ensures
            r == self@.home_space(window_id, best_space),
    {
        if window_id.is_some() && best_space.is_some() {
            best_space
        } else {
            self.first_known_space()
        }
    }

    fn record_fullscreen_window(
        &mut self,
        sid: SpaceId,
        pid: i32,
        window_id: Option<WindowId>,
        last_known_user_space: Option<SpaceId>,
    )
        ensures
            final(self)@ == old(self)@.with_track(sid, pid, window_id, last_known_user_space),
    {
        let track = self.native_fullscreen_tracks.get_or_insert(
            sid,
            FullscreenSpaceTrack { windows: Vec::new() },
        );
        track.windows.push(
            FullscreenWindowTrack {
                pid,
                window_id,
                last_known_user_space,
                last_seen_fullscreen_space: sid,
            },
        );
        assert(self@ =~= old(self)@.with_track(sid, pid, window_id, last_known_user_space));
    }

    /// Adds the request, if the app can be sent any.
    fn push_request(&self, steps: &mut Vec<SpaceStep>, pid: i32, request: AppRequest)
        ensures
            crate::reactor::steps_view(final(steps)@) == crate::reactor::steps_view(old(steps)@)
                + self@.request(pid, request),
    {
        if self.apps.contains(Pid { raw: pid }) {
            push_step(steps, SpaceStep::SendRequest { pid, request });
        }
        assert(crate::reactor::steps_view(steps@) =~= crate::reactor::steps_view(old(steps)@)
            + self@.request(pid, request));
    }

    /// Adds that the window leaves the layout, if it is assigned to `space`.
    fn push_layout_removal(
        &self,
        steps: &mut Vec<SpaceStep>,
        window_id: WindowId,
        space: SpaceId,
    ) -> (r: bool)
        requires
            self@.manager.registry is Some,
        ensures
            crate::reactor::steps_view(final(steps)@) == crate::reactor::steps_view(old(steps)@)
                + self@.layout_removal(window_id, space),
            r == (self@.assigned_space(window_id) == Some(space)),
    {
        let assigned = self.assigned_space_for_window_id(window_id) == Some(space);
        if assigned {
            push_step(
                steps,
                SpaceStep::SendLayoutEvent(LayoutEvent::WindowRemovedPreserveFloating(window_id)),
            );
        }
        assert(crate::reactor::steps_view(steps@) =~= crate::reactor::steps_view(old(steps)@)
            + self@.layout_removal(window_id, space));
        assigned
    }

    fn push_leaves_for_fullscreen(
        &self,
        steps: &mut Vec<SpaceStep>,
        window_id: WindowId,
        home: Option<SpaceId>,
        may_update: bool,
    )
        requires
            self@.manager.registry is Some,
        ensures
            crate::reactor::steps_view(final(steps)@) == crate::reactor::steps_view(old(steps)@)
                + self@.leaves_for_fullscreen(window_id, home, may_update),
    {
        if let Some(space) = home {
            let removed = self.push_layout_removal(steps, window_id, space);
            if removed && self.is_space_active(space) && may_update {
                push_step(steps, SpaceStep::UpdateLayout);
            }
        }
        assert(crate::reactor::steps_view(steps@) =~= crate::reactor::steps_view(old(steps)@)
            + self@.leaves_for_fullscreen(window_id, home, may_update));
    }

    fn is_stale(&self, wsid: WindowServerId, space: SpaceId) -> (r: bool)
        requires
            self@.manager.registry is Some,
        ensures
            r == self@.is_stale(wsid, space),
    {
        self.pending_targets.contains(wsid)
            && match self.workspaces.window_registry().get().window_server_space(wsid) {
            Some(recorded) => recorded != space,
            None => false,
        }
    }

    /// Some window of the process has gone into fullscreen.
    fn has_track_of_pid(&self, pid: i32) -> (r: bool)
        ensures
            r == self@.has_track_of_pid(pid),
    {
        let spaces = self.native_fullscreen_tracks.keys();
        for i in 0..spaces.len()
            invariant
                spaces@.to_set() == self.native_fullscreen_tracks@.dom(),
                forall|k: int, j: int|
                    #![trigger self@.tracks[spaces@[k]][j]]
                    0 <= k < i && 0 <= j < self@.tracks[spaces@[k]].len()
                        ==> self@.tracks[spaces@[k]][j].pid != pid,
        {
            assert(spaces@.to_set().contains(spaces@[i as int]));
            if let Some(track) = self.native_fullscreen_tracks.get(spaces[i]) {
                for j in 0..track.windows.len()
                    invariant
                        i < spaces@.len(),
                        self@.tracks.contains_key(spaces@[i as int]),
                        track.windows@ == self@.tracks[spaces@[i as int]],
                        forall|k: int| 0 <= k < j ==> (#[trigger] track.windows@[k]).pid != pid,
                {
                    if track.windows[j].pid == pid {
                        assert(self@.tracks[spaces@[i as int]][j as int].pid == pid);
                        return true;
                    }
                }
            }
        }
        proof {
            if self@.has_track_of_pid(pid) {
                let (space, j) = choose|space: SpaceId, j: int|
                    #![trigger self@.tracks[space][j]]
                    self@.tracks.contains_key(space) && 0 <= j < self@.tracks[space].len()
                        && self@.tracks[space][j].pid == pid;
                assert(spaces@.to_set().contains(space));
                let k = choose|k: int| 0 <= k < spaces@.len() && spaces@[k] == space;
                assert(self@.tracks[spaces@[k]][j].pid != pid);
            }
        }
        false
    }

    /// Drops the tracks of the window and of its process; true if there were
    /// any.
    fn drop_tracks_of(&mut self, window_id: WindowId, pid: i32) -> (r: bool)
        ensures
            final(self)@ == old(self)@.without_tracks_of(window_id, pid),
            r == old(self)@.has_track_of(window_id, pid),
    {
        let spaces = self.native_fullscreen_tracks.keys();
        let ghost start = self@;
        let mut dropped = false;
        for i in 0..spaces.len()
            invariant
                start == old(self)@,
                spaces@.no_duplicates(),
                spaces@.to_set() == start.tracks.dom(),
                self@ == (ReactorView { tracks: self@.tracks, ..start }),
                dropped == exists|k: int, j: int|
                    #![trigger start.tracks[spaces@[k]][j]]
                    0 <= k < i && 0 <= j < start.tracks[spaces@[k]].len()
                        && crate::reactor::is_track_of(
                        start.tracks[spaces@[k]][j],
                        window_id,
                        pid,
                    ),
                forall|space: SpaceId| #[trigger]
                    self@.tracks.contains_key(space) <==> start.tracks.contains_key(space) && (
                    spaces@.take(i as int).contains(space) ==> ReactorView::remaining(
                        start.tracks[space],
                        window_id,
                        pid,
                    ).len() > 0),
                forall|space: SpaceId| #[trigger]
                    self@.tracks.contains_key(space) ==> self@.tracks[space] == if spaces@.take(
                        i as int,
                    ).contains(space) {
                        ReactorView::remaining(start.tracks[space], window_id, pid)
                    } else {
                        start.tracks[space]
                    },
        {
            let ghost space = spaces@[i as int];
            let ghost before = self@;
            proof {
                assert(spaces@.to_set().contains(space));
                assert(spaces@.take(i + 1) =~= spaces@.take(i as int).push(space));
                crate::id_map::lemma_contains_push(spaces@.take(i as int), space);
                assert(!spaces@.take(i as int).contains(space));
                assert(before.tracks.contains_key(space));
                assert(before.tracks[space] == start.tracks[space]);
            }
            if let Some(track) = self.native_fullscreen_tracks.remove(spaces[i]) {
                assert(track.windows@ == start.tracks[space]);
                let kept = keep_other_tracks(&track.windows, window_id, pid);
                let ghost was_dropped = dropped;
                let ghost kept_tracks = kept@;
                if kept.len() != track.windows.len() {
                    dropped = true;
                }
                proof {
                    let here = kept@.len() != track.windows@.len();
                    assert(here == exists|j: int|
                        0 <= j < start.tracks[space].len() && crate::reactor::is_track_of(
                            #[trigger] start.tracks[space][j],
                            window_id,
                            pid,
                        ));
                    if dropped && !was_dropped {
                        let j = choose|j: int|
                            0 <= j < start.tracks[space].len() && crate::reactor::is_track_of(
                                #[trigger] start.tracks[space][j],
                                window_id,
                                pid,
                            );
                        assert(crate::reactor::is_track_of(
                            start.tracks[spaces@[i as int]][j],
                            window_id,
                            pid,
                        ));
                    }
                }
                if kept.len() > 0 {
                    self.native_fullscreen_tracks.insert(
                        spaces[i],
                        FullscreenSpaceTrack { windows: kept },
                    );
                }
                assert(self@.tracks =~= if kept_tracks.len() > 0 {
                    before.tracks.insert(space, kept_tracks)
                } else {
                    before.tracks.remove(space)
                });
            }
        }
        proof {
            assert(spaces@.take(spaces@.len() as int) =~= spaces@);
            assert forall|space: SpaceId| spaces@.contains(space) == start.tracks.contains_key(
                space,
            ) by {
                assert(spaces@.to_set().contains(space) == spaces@.contains(space));
            }
            assert(self@ =~= start.without_tracks_of(window_id, pid));
            if start.has_track_of(window_id, pid) {
                let (space, j) = choose|space: SpaceId, j: int|
                    #![trigger start.tracks[space][j]]
                    start.tracks.contains_key(space) && 0 <= j < start.tracks[space].len()
                        && crate::reactor::is_track_of(start.tracks[space][j], window_id, pid);
                assert(spaces@.contains(space));
                let k = choose|k: int| 0 <= k < spaces@.len() && spaces@[k] == space;
                assert(crate::reactor::is_track_of(start.tracks[spaces@[k]][j], window_id, pid));
            }
            if dropped {
                let (k, j) = choose|k: int, j: int|
                    #![trigger start.tracks[spaces@[k]][j]]
                    0 <= k < spaces@.len() && 0 <= j < start.tracks[spaces@[k]].len()
                        && crate::reactor::is_track_of(
                        start.tracks[spaces@[k]][j],
                        window_id,
                        pid,
                    );
                assert(start.tracks.contains_key(spaces@[k]));
            }
        }
        dropped
    }

    /// Brings a window back from fullscreen, if it or another one of its
    /// process had gone there; false if none had.
    fn restore_fullscreen_window_to_user_space(
        &mut self,
        steps: &mut Vec<SpaceStep>,
        wsid: WindowServerId,
        sid: SpaceId,
        wid: WindowId,
    ) -> (r: bool)
        requires
            old(self)@.manager.registry is Some,
            old(steps)@.len() == 0,
        ensures
            r == old(self)@.has_track_of(wid, old(self)@.owner_of(wsid, wid)),
            r ==> (final(self)@, crate::reactor::steps_view(final(steps)@)) == old(self)@.restored(
                wsid,
                sid,
                wid,
            ),
            !r ==> final(self)@ == old(self)@.without_tracks_of(
                wid,
                old(self)@.owner_of(wsid, wid),
            ) && final(steps)@ == old(steps)@,
    {
        let registry = self.workspaces.window_registry().get();
        let tracked_pid: i32 = match registry.get_window_server_info(wsid) {
            Some(info) => info.pid,
            None => wid.pid,
        };
        let manageable = match registry.window(wid) {
            Some(state) => state.is_manageable,
            None => true,
        };
        let visible = registry.is_window_visible(wsid);
        if !self.drop_tracks_of(wid, tracked_pid) {
            return false;
        }
        let ghost next = self@;
        let ghost asked = old(self)@.request(tracked_pid, AppRequest::GetVisibleWindows);
        self.push_request(steps, tracked_pid, AppRequest::GetVisibleWindows);
        assert(crate::reactor::steps_view(steps@) =~= asked);
        let assigned = self.assigned_space_for_window_id(wid);
        if !manageable {
            push_step(
                steps,
                SpaceStep::SendLayoutEvent(LayoutEvent::WindowRemovedPreserveFloating(wid)),
            );
            let layout_changed = match assigned {
                Some(space) => self.is_space_active(space),
                None => false,
            };
            if layout_changed {
                push_step(steps, SpaceStep::UpdateLayout);
            }
            self.workspaces.remove_window(wid);
        } else if assigned == Some(sid) {
            if self.is_space_active(sid) && visible {
                push_step(steps, SpaceStep::SendLayoutEvent(LayoutEvent::WindowAdded(sid, wid)));
                push_step(steps, SpaceStep::UpdateLayout);
            }
        } else {
            push_step(steps, SpaceStep::ReassignWindow { window_id: wid, space: sid });
        }
        assert(crate::reactor::steps_view(steps@) =~= old(self)@.restored(wsid, sid, wid).1);
        assert(self@ =~= old(self)@.restored(wsid, sid, wid).0);
        true
    }

    /// The snapshot says nothing new but which space commands go to.
    fn only_command_space_differs(&self, s: &ForwardedSpaceState) -> (r: bool)
        ensures
            r == self@.only_command_space_differs(s@),
    {
        !self.mission_control_active && self.pending_space_change.is_none() && s.screens.len() > 0
            && are_same_screens(&s.screens, &self.space_state.screens) && are_same_spaces(
            &s.fullscreen_spaces,
            &self.space_state.fullscreen_spaces,
        ) && s.has_seen_display_set == self.space_state.has_seen_display_set && are_same_spaces(
            &s.active_spaces,
            &self.space_state.active_spaces,
        ) && are_same_display_spaces(&s.display_space_ids, &self.space_state.display_space_ids)
            && are_same_display_spaces(
            &s.last_user_space_by_display,
            &self.space_state.last_user_space_by_display,
        ) && s.space_remaps.len() == 0 && !s.display_set_changed && !s.should_force_refresh_layout
            && s.resized_spaces.len() == 0 && s.topology_window_delta.is_none() && s.command_space
            != self.space_state.command_space
    }

    /// The snapshot that waits to be applied, which then waits no longer.
    pub fn take_pending_space_change(&mut self) -> (r: Option<ForwardedSpaceState>)
        ensures
            crate::reactor::change_view(r) == old(self)@.pending_change,
            final(self)@ == (ReactorView { pending_change: None, ..old(self)@ }),
    {
        self.pending_space_change.take()
    }
}

fn update_stale_cleanup_state(reactor: &mut Reactor, spaces_all_none: bool)
    ensures
        final(reactor)@ == (ReactorView {
            stale_cleanup_state: if spaces_all_none {
                StaleCleanupState::Suppressed
            } else {
                StaleCleanupState::Enabled
            },
            ..old(reactor)@
        }),
{
    reactor.stale_cleanup_state = if spaces_all_none {
        StaleCleanupState::Suppressed
    } else {
        StaleCleanupState::Enabled
    };
}

impl SpaceEventHandler {
    /// A new snapshot of the screens and spaces.
    pub fn handle_space_state_changed(reactor: &mut Reactor, space_state: ForwardedSpaceState) -> (
        steps: Vec<SpaceStep>)
        ensures
            (final(reactor)@, crate::reactor::steps_view(steps@)) == old(reactor)@.on_space_state(
                space_state@,
            ),
    {
        let mut steps: Vec<SpaceStep> = Vec::new();
        let ghost s = space_state@;
        assert(crate::reactor::steps_view(steps@) =~= Seq::empty());
        if reactor.only_command_space_differs(&space_state) {
            reactor.space_state.command_space = space_state.command_space;
            return steps;
        }
        push_display_set_steps(&mut steps, &space_state);
        assert(crate::reactor::steps_view(steps@) =~= display_set_steps(s));
        if space_state.display_set_changed {
            reactor.pending_targets.clear();
        }
        if space_state.screens.len() == 0 {
            update_stale_cleanup_state(reactor, true);
            if reactor.space_state.screens.len() > 0 {
                push_step(&mut steps, SpaceStep::ExposeAllSpaces);
            }
            push_step(&mut steps, SpaceStep::RecomputeActiveSpaces);
            push_step(&mut steps, SpaceStep::ClearWindowServerInfo);
            push_step(&mut steps, SpaceStep::TryApplyPendingSpaceChange);
            reactor.space_state.has_seen_display_set = space_state.has_seen_display_set;
            reactor.space_state.fullscreen_spaces = space_state.fullscreen_spaces;
            reactor.space_state.screens = Vec::new();
            reactor.space_state.command_space = None;
            reactor.space_state.display_space_ids = Vec::new();
            assert(crate::reactor::steps_view(steps@) =~= old(reactor)@.on_space_state(s).1);
            assert(reactor@ =~= old(reactor)@.on_space_state(s).0);
            return steps;
        }
        update_stale_cleanup_state(reactor, false);
        if reactor.mission_control_active {
            reactor.pending_space_change = Some(space_state.clone());
        } else {
            push_reconcile_steps(&mut steps, &space_state);
        }
        reactor.space_state.has_seen_display_set = space_state.has_seen_display_set;
        reactor.space_state.fullscreen_spaces = space_state.fullscreen_spaces;
        reactor.space_state.screens = space_state.screens;
        reactor.space_state.command_space = space_state.command_space;
        reactor.space_state.display_space_ids = space_state.display_space_ids;
        reactor.space_state.last_user_space_by_display = space_state.last_user_space_by_display;
        assert(crate::reactor::steps_view(steps@) =~= old(reactor)@.on_space_state(s).1);
        assert(reactor@ =~= old(reactor)@.on_space_state(s).0);
        steps
    }

    /// A space has a new size: it is exposed if it is active, and gets its
    /// workspaces first where it has none.
    pub fn handle_space_resized(reactor: &mut Reactor, space: SpaceId, size: Extent) -> (steps: Vec<
        SpaceStep,
    >)
        requires
            old(reactor)@.manager.has_room(space),
        ensures
            crate::reactor::steps_view(steps@) == crate::reactor::when(
                old(reactor)@.is_active(space),
                StepView::SendLayoutEvent(LayoutEvent::SpaceExposed(space, size)),
            ),
            final(reactor)@ == (ReactorView {
                manager: final(reactor)@.manager,
                ..old(reactor)@
            }),
            if old(reactor)@.is_active(space) {
                old(reactor)@.manager.starts_space(final(reactor)@.manager, space)
            } else {
                final(reactor)@.manager == old(reactor)@.manager
            },
    {
        let mut steps: Vec<SpaceStep> = Vec::new();
        if reactor.is_space_active(space) {
            let _listed = reactor.workspaces.list_workspaces(space);
            push_step(
                &mut steps,
                SpaceStep::SendLayoutEvent(LayoutEvent::SpaceExposed(space, size)),
            );
        }
        assert(crate::reactor::steps_view(steps@) =~= crate::reactor::when(
            old(reactor)@.is_active(space),
            StepView::SendLayoutEvent(LayoutEvent::SpaceExposed(space, size)),
        ));
        steps
    }

    /// A window has left a space. `seen` is what is seen of the window outside.
    pub fn handle_window_server_destroyed(
        reactor: &mut Reactor,
        wsid: WindowServerId,
        sid: SpaceId,
        kind: SpaceEventKind,
        seen: WindowSighting,
    ) -> (steps: Vec<SpaceStep>)
        requires
            old(reactor)@.manager.registry is Some,
        ensures
            (final(reactor)@, crate::reactor::steps_view(steps@)) == old(reactor)@.on_destroyed(
                wsid,
                sid,
                kind,
                seen,
            ),
    {
        let mut steps: Vec<SpaceStep> = Vec::new();
        assert(crate::reactor::steps_view(steps@) =~= Seq::empty());
        match kind {
            SpaceEventKind::Fullscreen => {
                let registry = reactor.workspaces.window_registry().get();
                let window_id = registry.tracked_window_id(wsid);
                let pid: i32 = match window_id {
                    Some(wid) => wid.pid,
                    None => match registry.get_window_server_info(wsid) {
                        Some(info) => info.pid,
                        None => {
                            return steps;
                        },
                    },
                };
                let home = reactor.resolve_last_known_user_space(window_id, seen.best_space);
                if let Some(wid) = window_id {
                    let may_update = !reactor.mission_control_active;
                    reactor.push_leaves_for_fullscreen(&mut steps, wid, home, may_update);
                    reactor.push_request(
                        &mut steps,
                        wid.pid,
                        AppRequest::WindowMaybeDestroyed(wid),
                    );
                    assert(crate::reactor::steps_view(steps@) =~= old(
                        reactor,
                    )@.leaves_for_fullscreen(wid, home, may_update) + old(reactor)@.request(
                        wid.pid,
                        AppRequest::WindowMaybeDestroyed(wid),
                    ));
                }
                reactor.record_fullscreen_window(sid, pid, window_id, home);
            },
            SpaceEventKind::User => {
                let window_id = reactor.workspaces.window_registry().get().tracked_window_id(wsid);
                if let Some(wid) = window_id {
                    let layout_changed = reactor.push_layout_removal(&mut steps, wid, sid);
                    if layout_changed && !reactor.mission_control_active {
                        push_step(&mut steps, SpaceStep::UpdateLayout);
                    }
                    reactor.push_request(
                        &mut steps,
                        wid.pid,
                        AppRequest::WindowMaybeDestroyed(wid),
                    );
                    assert(crate::reactor::steps_view(steps@) =~= old(reactor)@.departure_steps(
                        wsid,
                        sid,
                    ));
                }
                if reactor.is_stale(wsid, sid) {
                    return steps;
                }
                let registry = reactor.workspaces.window_registry_mut().get_mut();
                registry.set_window_server_space(wsid, Some(sid));
                registry.mark_window_hidden(wsid);
                let ghost server = old(reactor)@.records().server(wsid);
                let ghost next = old(reactor)@.with_records(
                    old(reactor)@.records().put_server(
                        wsid,
                        WindowServerRecord { space: Some(sid), visible: false, ..server },
                    ),
                );
                assert(reactor@.records() =~= next.records());
                assert(reactor@ =~= next);
                if let Some(wid) = window_id {
                    if !seen.ordered_in {
                        reactor.workspaces.remove_window(wid);
                        reactor.workspaces.window_registry_mut().get_mut().remove_window(wid);
                        assert(reactor@ =~= next.without_gone_window(wid));
                    }
                }
            },
        }
        steps
    }

    /// A window has come to a space. `seen` is what is seen of the window
    /// outside.
    pub fn handle_window_server_appeared(
        reactor: &mut Reactor,
        wsid: WindowServerId,
        sid: SpaceId,
        kind: SpaceEventKind,
        seen: WindowSighting,
    ) -> (steps: Vec<SpaceStep>)
        requires
            old(reactor)@.manager.registry is Some,
        ensures
            (final(reactor)@, crate::reactor::steps_view(steps@)) == old(reactor)@.on_appeared(
                wsid,
                sid,
                kind,
                seen,
            ),
    {
        let mut steps: Vec<SpaceStep> = Vec::new();
        assert(crate::reactor::steps_view(steps@) =~= Seq::empty());
        if kind == SpaceEventKind::User {
            let stale = reactor.is_stale(wsid, sid);
            let registry = reactor.workspaces.window_registry_mut().get_mut();
            if !stale {
                registry.set_window_server_space(wsid, Some(sid));
            }
            registry.mark_window_visible(wsid);
            assert(reactor@.records() =~= old(reactor)@.with_arrival(wsid, sid).records());
            assert(reactor@ =~= old(reactor)@.with_arrival(wsid, sid));
        }
        let ghost here = reactor@;
        let registry = reactor.workspaces.window_registry().get();
        if registry.knows_window_server_id(wsid) || registry.is_window_server_observed(wsid) {
            if !reactor.mission_control_active {
                let window_id = registry.tracked_window_id(wsid);
                let info = registry.get_window_server_info(wsid);
                match kind {
                    SpaceEventKind::User => match window_id {
                        Some(wid) => {
                            let restored = reactor.restore_fullscreen_window_to_user_space(
                                &mut steps,
                                wsid,
                                sid,
                                wid,
                            );
                            if !restored && !reactor.pending_targets.contains(wsid) {
                                push_step(
                                    &mut steps,
                                    SpaceStep::ReassignWindow { window_id: wid, space: sid },
                                );
                            }
                            proof {
                                if !restored {
                                    assert(crate::reactor::steps_view(steps@)
                                        =~= crate::reactor::when(
                                        !here.pending_targets.contains(wsid),
                                        StepView::ReassignWindow { window_id: wid, space: sid },
                                    ));
                                }
                            }
                        },
                        None => {
                            if let Some(info) = info {
                                if reactor.has_track_of_pid(info.pid) {
                                    reactor.push_request(
                                        &mut steps,
                                        info.pid,
                                        AppRequest::GetVisibleWindows,
                                    );
                                    assert(crate::reactor::steps_view(steps@) =~= here.request(
                                        info.pid,
                                        AppRequest::GetVisibleWindows,
                                    ));
                                }
                            }
                        },
                    },
                    SpaceEventKind::Fullscreen => {
                        let home = reactor.resolve_last_known_user_space(
                            window_id,
                            seen.best_space,
                        );
                        match window_id {
                            Some(wid) => {
                                reactor.push_leaves_for_fullscreen(&mut steps, wid, home, true);
                                assert(crate::reactor::steps_view(steps@)
                                    =~= here.leaves_for_fullscreen(wid, home, true));
                                reactor.record_fullscreen_window(sid, wid.pid, window_id, home);
                            },
                            None => {
                                if let Some(info) = info {
                                    reactor.push_request(
                                        &mut steps,
                                        info.pid,
                                        AppRequest::GetVisibleWindows,
                                    );
                                    assert(crate::reactor::steps_view(steps@) =~= here.request(
                                        info.pid,
                                        AppRequest::GetVisibleWindows,
                                    ));
                                    reactor.record_fullscreen_window(sid, info.pid, None, home);
                                }
                            },
                        }
                    },
                }
            }
            return steps;
        }
        reactor.workspaces.window_registry_mut().get_mut().mark_window_server_observed(wsid);
        push_step(&mut steps, SpaceStep::QueryWindow { wsid, space: sid, kind });
        proof {
            assert(crate::reactor::steps_view(steps@) =~= seq![
                StepView::QueryWindow { wsid, space: sid, kind },
            ]);
            assert(reactor@ =~= here.with_records(
                here.records().put_server(
                    wsid,
                    WindowServerRecord { observed: true, ..here.records().server(wsid) },
                ),
            ));
        }
        steps
    }

    /// The window server has answered what it knows of a window that has come
    /// to a space and was not known before.
    pub fn handle_window_observed(
        reactor: &mut Reactor,
        wsid: WindowServerId,
        sid: SpaceId,
        kind: SpaceEventKind,
        answer: Option<ObservedWindow>,
        seen: WindowSighting,
    ) -> (steps: Vec<SpaceStep>)
        requires
            old(reactor)@.manager.registry is Some,
        ensures
            (final(reactor)@, crate::reactor::steps_view(steps@)) == old(
                reactor,
            )@.on_window_observed(wsid, sid, kind, answer, seen),
    {
        let mut steps: Vec<SpaceStep> = Vec::new();
        assert(crate::reactor::steps_view(steps@) =~= Seq::empty());
        if let Some(window) = answer {
            if window.info.layer != 0 {
                return steps;
            }
            if window.too_small {
                return steps;
            }
            let pid: i32 = window.info.pid;
            match kind {
                SpaceEventKind::Fullscreen => {
                    let window_id = reactor.workspaces.window_registry().get().tracked_window_id(
                        wsid,
                    );
                    let home = reactor.resolve_last_known_user_space(window_id, seen.best_space);
                    reactor.push_request(&mut steps, pid, AppRequest::GetVisibleWindows);
                    assert(crate::reactor::steps_view(steps@) =~= old(reactor)@.request(
                        pid,
                        AppRequest::GetVisibleWindows,
                    ));
                    reactor.record_fullscreen_window(sid, pid, window_id, home);
                },
                SpaceEventKind::User => {
                    push_step(&mut steps, SpaceStep::UpdateWindowServerInfo(window.info));
                    if !reactor.apps.contains(Pid { raw: pid }) {
                        push_step(&mut steps, SpaceStep::AnnounceApp { pid });
                    } else {
                        push_step(
                            &mut steps,
                            SpaceStep::SendRequest { pid, request: AppRequest::GetVisibleWindows },
                        );
                    }
                    assert(crate::reactor::steps_view(steps@) =~= old(reactor)@.on_window_observed(
                        wsid,
                        sid,
                        kind,
                        answer,
                        seen,
                    ).1);
                },
            }
        }
        steps
    }

    /// A window has been moved to another space outside, and its layout has
    /// changed or not.
    pub fn handle_window_reassigned(layout_changed: bool) -> (steps: Vec<SpaceStep>)
        ensures
            crate::reactor::steps_view(steps@) == crate::reactor::when(
                layout_changed,
                StepView::UpdateLayout,
            ),
    {
        let mut steps: Vec<SpaceStep> = Vec::new();
        if layout_changed {
            push_step(&mut steps, SpaceStep::UpdateLayout);
        }
        assert(crate::reactor::steps_view(steps@) =~= crate::reactor::when(
            layout_changed,
            StepView::UpdateLayout,
        ));
        steps
    }

    pub fn handle_mission_control_native_entered(reactor: &mut Reactor) -> (steps: Vec<SpaceStep>)
        ensures
            final(reactor)@ == old(reactor)@.on_mission_control_entered(),
            crate::reactor::steps_view(steps@) == seq![StepView::ResetDrag],
    {
        let mut steps: Vec<SpaceStep> = Vec::new();
        push_step(&mut steps, SpaceStep::ResetDrag);
        reactor.drag_state = DragState::Inactive;
        reactor.skip_layout_for_window = None;
        reactor.mission_control_active = true;
        assert(crate::reactor::steps_view(steps@) =~= seq![StepView::ResetDrag]);
        steps
    }

    pub fn handle_mission_control_native_exited(reactor: &mut Reactor) -> (steps: Vec<SpaceStep>)
        ensures
            final(reactor)@ == (ReactorView { mission_control_active: false, ..old(reactor)@ }),
            crate::reactor::steps_view(steps@) == seq![
                StepView::RepairSpacesAfterMissionControl,
                StepView::RefreshWindowsAfterMissionControl,
            ],
    {
        let mut steps: Vec<SpaceStep> = Vec::new();
        if reactor.mission_control_active {
            reactor.mission_control_active = false;
        }
        push_step(&mut steps, SpaceStep::RepairSpacesAfterMissionControl);
        push_step(&mut steps, SpaceStep::RefreshWindowsAfterMissionControl);
        assert(crate::reactor::steps_view(steps@) =~= seq![
            StepView::RepairSpacesAfterMissionControl,
            StepView::RefreshWindowsAfterMissionControl,
        ]);
        steps
    }
}

/// The tracks without those of the window and of the process.
fn keep_other_tracks(
    tracks: &Vec<FullscreenWindowTrack>,
    window_id: WindowId,
    pid: i32,
) -> (r: Vec<FullscreenWindowTrack>)
    ensures
        r@ == ReactorView::remaining(tracks@, window_id, pid),
        (r@.len() != tracks@.len()) == exists|j: int|
            0 <= j < tracks@.len() && crate::reactor::is_track_of(
                #[trigger] tracks@[j],
                window_id,
                pid,
            ),
{
    let ghost other = |track: FullscreenWindowTrack|
        !crate::reactor::is_track_of(track, window_id, pid);
    let mut r: Vec<FullscreenWindowTrack> = Vec::new();
    assert(tracks@.take(0).filter(other) =~= Seq::empty()) by {
        reveal(Seq::filter);
    }
    for i in 0..tracks.len()
        invariant
            other == (|track: FullscreenWindowTrack|
                !crate::reactor::is_track_of(track, window_id, pid)),
            r@ =~= tracks@.take(i as int).filter(other),
            r@.len() <= i,
            (r@.len() != i) == exists|j: int|
                0 <= j < i && crate::reactor::is_track_of(#[trigger] tracks@[j], window_id, pid),
    {
        proof {
            crate::id_map::lemma_filter_take(tracks@, other, i as int);
        }
        if !(tracks[i].window_id == Some(window_id) || tracks[i].pid == pid) {
            r.push(tracks[i]);
        } else {
            assert(crate::reactor::is_track_of(tracks@[i as int], window_id, pid));
        }
    }
    assert(tracks@.take(tracks@.len() as int) =~= tracks@);
    r
}

} // verus!
