//! The state that space events are decided on, and the steps that are taken
//! outside as a result.
use crate::id_map::{IdMap, IdSet};
use crate::ids::{Pid, SpaceId, WindowId, WindowServerId};
use crate::lists::copy_list;
use crate::manager::VirtualWorkspaceManager;
use crate::manager_state::ManagerView;
use crate::window::{Extent, Frame, WindowServerInfo};
use crate::window_registry::RegistryView;
use vstd::prelude::*;

verus! {

/// Whether a space is an ordinary one or holds one window in native fullscreen.
#[derive(Clone, Copy, Debug, PartialEq, Eq, Structural)]
pub enum SpaceEventKind {
    User,
    Fullscreen,
}

/// Whether windows that have gone stale may be cleaned up.
#[derive(Clone, Copy, Debug, PartialEq, Eq, Structural)]
pub enum StaleCleanupState {
    Enabled,
    Suppressed,
}

/// A window that has gone into native fullscreen.
#[derive(Clone, Copy, Debug, PartialEq, Eq, Structural)]
pub struct FullscreenWindowTrack {
    pub pid: i32,
    pub window_id: Option<WindowId>,
    pub last_known_user_space: Option<SpaceId>,
    pub last_seen_fullscreen_space: SpaceId,
}

/// The windows that have gone into one fullscreen space.
#[derive(Debug)]
pub struct FullscreenSpaceTrack {
    pub windows: Vec<FullscreenWindowTrack>,
}

/// A window that the mouse drags.
#[derive(Clone, Copy, Debug, PartialEq, Eq, Structural)]
pub enum DragState {
    Inactive,
    Active { window: WindowId, origin: Frame },
}

/// A screen and the space that it shows.
#[derive(Debug)]
pub struct ScreenInfo {
    pub id: u32,
    pub frame: Frame,
    pub display_uuid: String,
    pub name: Option<String>,
    pub space: Option<SpaceId>,
}

impl Clone for ScreenInfo {
    fn clone(&self) -> (r: Self)
        ensures
            r == *self,
    {
        ScreenInfo {
            id: self.id,
            frame: self.frame,
            display_uuid: self.display_uuid.clone(),
            name: self.name.clone(),
            space: self.space,
        }
    }
}

/// A space of a display.
#[derive(Debug)]
pub struct DisplaySpace {
    pub display_uuid: String,
    pub space: SpaceId,
}

impl Clone for DisplaySpace {
    fn clone(&self) -> (r: Self)
        ensures
            r == *self,
    {
        DisplaySpace { display_uuid: self.display_uuid.clone(), space: self.space }
    }
}

/// The windows that came to and left spaces while displays changed.
#[derive(Debug)]
pub struct TopologyWindowDelta {
    pub epoch: u64,
    pub flags: u32,
    pub appeared: Vec<(WindowServerId, SpaceId)>,
    pub disappeared: Vec<(WindowServerId, SpaceId)>,
}

/// A snapshot of the screens and spaces.
#[derive(Debug)]
pub struct ForwardedSpaceState {
    pub screens: Vec<ScreenInfo>,
    pub fullscreen_spaces: Vec<SpaceId>,
    pub has_seen_display_set: bool,
    pub active_spaces: Vec<SpaceId>,
    pub command_space: Option<SpaceId>,
    pub display_space_ids: Vec<DisplaySpace>,
    pub last_user_space_by_display: Vec<DisplaySpace>,
    pub space_remaps: Vec<(SpaceId, SpaceId)>,
    pub display_set_changed: bool,
    pub topology_changed: bool,
    pub allow_space_remap: bool,
    pub should_force_refresh_layout: bool,
    pub resized_spaces: Vec<(SpaceId, Extent)>,
    pub topology_window_delta: Option<TopologyWindowDelta>,
}

/// The contents of a change of windows.
#[verifier::ext_equal]
pub struct DeltaView {
    pub epoch: u64,
    pub flags: u32,
    pub appeared: Seq<(WindowServerId, SpaceId)>,
    pub disappeared: Seq<(WindowServerId, SpaceId)>,
}

impl View for TopologyWindowDelta {
    type V = DeltaView;

    open spec fn view(&self) -> DeltaView {
        DeltaView {
            epoch: self.epoch,
            flags: self.flags,
            appeared: self.appeared@,
            disappeared: self.disappeared@,
        }
    }
}

/// The contents of a snapshot.
#[verifier::ext_equal]
pub struct SnapshotView {
    pub screens: Seq<ScreenInfo>,
    pub fullscreen_spaces: Seq<SpaceId>,
    pub has_seen_display_set: bool,
    pub active_spaces: Seq<SpaceId>,
    pub command_space: Option<SpaceId>,
    pub display_space_ids: Seq<DisplaySpace>,
    pub last_user_space_by_display: Seq<DisplaySpace>,
    pub space_remaps: Seq<(SpaceId, SpaceId)>,
    pub display_set_changed: bool,
    pub topology_changed: bool,
    pub allow_space_remap: bool,
    pub should_force_refresh_layout: bool,
    pub resized_spaces: Seq<(SpaceId, Extent)>,
    pub topology_window_delta: Option<DeltaView>,
}

pub open spec fn delta_view(delta: Option<TopologyWindowDelta>) -> Option<DeltaView> {
    match delta {
        Some(delta) => Some(delta@),
        None => None,
    }
}

impl View for ForwardedSpaceState {
    type V = SnapshotView;

    open spec fn view(&self) -> SnapshotView {
        SnapshotView {
            screens: self.screens@,
            fullscreen_spaces: self.fullscreen_spaces@,
            has_seen_display_set: self.has_seen_display_set,
            active_spaces: self.active_spaces@,
            command_space: self.command_space,
            display_space_ids: self.display_space_ids@,
            last_user_space_by_display: self.last_user_space_by_display@,
            space_remaps: self.space_remaps@,
            display_set_changed: self.display_set_changed,
            topology_changed: self.topology_changed,
            allow_space_remap: self.allow_space_remap,
            should_force_refresh_layout: self.should_force_refresh_layout,
            resized_spaces: self.resized_spaces@,
            topology_window_delta: delta_view(self.topology_window_delta),
        }
    }
}

impl Clone for TopologyWindowDelta {
    fn clone(&self) -> (r: Self)
        ensures
            r@ == self@,
    {
        let r = TopologyWindowDelta {
            epoch: self.epoch,
            flags: self.flags,
            appeared: copy_list(&self.appeared),
            disappeared: copy_list(&self.disappeared),
        };
        assert(r@ =~= self@);
        r
    }
}

impl Clone for ForwardedSpaceState {
    fn clone(&self) -> (r: Self)
        ensures
            r@ == self@,
    {
        let topology_window_delta = match &self.topology_window_delta {
            Some(delta) => Some(delta.clone()),
            None => None,
        };
        let r = ForwardedSpaceState {
            screens: self.screens.clone(),
            fullscreen_spaces: copy_list(&self.fullscreen_spaces),
            has_seen_display_set: self.has_seen_display_set,
            active_spaces: copy_list(&self.active_spaces),
            command_space: self.command_space,
            display_space_ids: self.display_space_ids.clone(),
            last_user_space_by_display: self.last_user_space_by_display.clone(),
            space_remaps: copy_list(&self.space_remaps),
            display_set_changed: self.display_set_changed,
            topology_changed: self.topology_changed,
            allow_space_remap: self.allow_space_remap,
            should_force_refresh_layout: self.should_force_refresh_layout,
            resized_spaces: copy_list(&self.resized_spaces),
            topology_window_delta,
        };
        assert(r@ =~= self@);
        r
    }
}

/// What the screens and spaces were when they were last reported.
#[derive(Debug)]
pub struct SpaceState {
    pub screens: Vec<ScreenInfo>,
    pub fullscreen_spaces: Vec<SpaceId>,
    pub has_seen_display_set: bool,
    pub active_spaces: Vec<SpaceId>,
    pub command_space: Option<SpaceId>,
    pub display_space_ids: Vec<DisplaySpace>,
    pub last_user_space_by_display: Vec<DisplaySpace>,
}

/// The contents of a `SpaceState`.
#[verifier::ext_equal]
pub struct SpaceStateView {
    pub screens: Seq<ScreenInfo>,
    pub fullscreen_spaces: Seq<SpaceId>,
    pub has_seen_display_set: bool,
    pub active_spaces: Seq<SpaceId>,
    pub command_space: Option<SpaceId>,
    pub display_space_ids: Seq<DisplaySpace>,
    pub last_user_space_by_display: Seq<DisplaySpace>,
}

impl View for SpaceState {
    type V = SpaceStateView;

    open spec fn view(&self) -> SpaceStateView {
        SpaceStateView {
            screens: self.screens@,
            fullscreen_spaces: self.fullscreen_spaces@,
            has_seen_display_set: self.has_seen_display_set,
            active_spaces: self.active_spaces@,
            command_space: self.command_space,
            display_space_ids: self.display_space_ids@,
            last_user_space_by_display: self.last_user_space_by_display@,
        }
    }
}

/// An event for the layout.
#[derive(Clone, Copy, Debug, PartialEq, Eq, Structural)]
pub enum LayoutEvent {
    SpaceExposed(SpaceId, Extent),
    WindowAdded(SpaceId, WindowId),
    WindowRemovedPreserveFloating(WindowId),
}

/// A request to an app.
#[derive(Clone, Copy, Debug, PartialEq, Eq, Structural)]
pub enum AppRequest {
    GetVisibleWindows,
    WindowMaybeDestroyed(WindowId),
}

/// A step to take outside, or a decision that is due once the steps before it
/// have been taken.
#[derive(Debug)]
pub enum SpaceStep {
    /// Forget the layout of displays other than these.
    PruneDisplayState(Vec<String>),
    /// Forget the frames that windows have been asked to take.
    ClearPendingTargets,
    ExposeAllSpaces,
    /// Work out the active spaces for no screens at all.
    RecomputeActiveSpaces,
    /// Take over that the window server has no windows.
    ClearWindowServerInfo,
    TryApplyPendingSpaceChange,
    /// Tell the activation policy which spaces the screens show.
    NotifySpacesUpdated,
    ApplyActiveSpaces(Vec<SpaceId>),
    RestoreWindowsAfterFullscreenExit(Vec<Option<SpaceId>>),
    UpdateSpaceDisplay { space: SpaceId, display_uuid: String },
    RemapSpace { previous: SpaceId, space: SpaceId },
    /// Decide whether to expose a space that has a new size.
    ExposeResized { space: SpaceId, size: Extent },
    /// Decide on a window that has left a space.
    WindowDisappeared { wsid: WindowServerId, space: SpaceId },
    /// Decide on a window that has come to a space.
    WindowAppeared { wsid: WindowServerId, space: SpaceId },
    FinalizeSpaceChange(Vec<Option<SpaceId>>),
    ForceRefreshAllWindows,
    UpdateLayoutAfterTopologyChange,
    ReconcilePhantomWindows,
    SendLayoutEvent(LayoutEvent),
    UpdateLayout,
    SendRequest { pid: i32, request: AppRequest },
    /// Move the window to the space, and decide on what came of it.
    ReassignWindow { window_id: WindowId, space: SpaceId },
    /// Ask the window server for a window, and decide on the answer.
    QueryWindow { wsid: WindowServerId, space: SpaceId, kind: SpaceEventKind },
    UpdateWindowServerInfo(WindowServerInfo),
    /// Announce the app, if it runs.
    AnnounceApp { pid: i32 },
    ResetDrag,
    RepairSpacesAfterMissionControl,
    RefreshWindowsAfterMissionControl,
}

/// A step, with its lists as sequences.
pub enum StepView {
    PruneDisplayState(Seq<Seq<char>>),
    ClearPendingTargets,
    ExposeAllSpaces,
    RecomputeActiveSpaces,
    ClearWindowServerInfo,
    TryApplyPendingSpaceChange,
    NotifySpacesUpdated,
    ApplyActiveSpaces(Seq<SpaceId>),
    RestoreWindowsAfterFullscreenExit(Seq<Option<SpaceId>>),
    UpdateSpaceDisplay { space: SpaceId, display_uuid: Seq<char> },
    RemapSpace { previous: SpaceId, space: SpaceId },
    ExposeResized { space: SpaceId, size: Extent },
    WindowDisappeared { wsid: WindowServerId, space: SpaceId },
    WindowAppeared { wsid: WindowServerId, space: SpaceId },
    FinalizeSpaceChange(Seq<Option<SpaceId>>),
    ForceRefreshAllWindows,
    UpdateLayoutAfterTopologyChange,
    ReconcilePhantomWindows,
    SendLayoutEvent(LayoutEvent),
    UpdateLayout,
    SendRequest { pid: i32, request: AppRequest },
    ReassignWindow { window_id: WindowId, space: SpaceId },
    QueryWindow { wsid: WindowServerId, space: SpaceId, kind: SpaceEventKind },
    UpdateWindowServerInfo(WindowServerInfo),
    AnnounceApp { pid: i32 },
    ResetDrag,
    RepairSpacesAfterMissionControl,
    RefreshWindowsAfterMissionControl,
}

impl View for SpaceStep {
    type V = StepView;

    open spec fn view(&self) -> StepView {
        match *self {
            SpaceStep::PruneDisplayState(kept) => StepView::PruneDisplayState(
                crate::manager_state::text_views(kept@),
            ),
            SpaceStep::ClearPendingTargets => StepView::ClearPendingTargets,
            SpaceStep::ExposeAllSpaces => StepView::ExposeAllSpaces,
            SpaceStep::RecomputeActiveSpaces => StepView::RecomputeActiveSpaces,
            SpaceStep::ClearWindowServerInfo => StepView::ClearWindowServerInfo,
            SpaceStep::TryApplyPendingSpaceChange => StepView::TryApplyPendingSpaceChange,
            SpaceStep::NotifySpacesUpdated => StepView::NotifySpacesUpdated,
            SpaceStep::ApplyActiveSpaces(spaces) => StepView::ApplyActiveSpaces(spaces@),
            SpaceStep::RestoreWindowsAfterFullscreenExit(spaces) =>
                StepView::RestoreWindowsAfterFullscreenExit(spaces@),
            SpaceStep::UpdateSpaceDisplay { space, display_uuid } => StepView::UpdateSpaceDisplay {
                space,
                display_uuid: display_uuid@,
            },
            SpaceStep::RemapSpace { previous, space } => StepView::RemapSpace { previous, space },
            SpaceStep::ExposeResized { space, size } => StepView::ExposeResized { space, size },
            SpaceStep::WindowDisappeared { wsid, space } => StepView::WindowDisappeared {
                wsid,
                space,
            },
            SpaceStep::WindowAppeared { wsid, space } => StepView::WindowAppeared { wsid, space },
            SpaceStep::FinalizeSpaceChange(spaces) => StepView::FinalizeSpaceChange(spaces@),
            SpaceStep::ForceRefreshAllWindows => StepView::ForceRefreshAllWindows,
            SpaceStep::UpdateLayoutAfterTopologyChange => StepView::UpdateLayoutAfterTopologyChange,
            SpaceStep::ReconcilePhantomWindows => StepView::ReconcilePhantomWindows,
            SpaceStep::SendLayoutEvent(event) => StepView::SendLayoutEvent(event),
            SpaceStep::UpdateLayout => StepView::UpdateLayout,
            SpaceStep::SendRequest { pid, request } => StepView::SendRequest { pid, request },
            SpaceStep::ReassignWindow { window_id, space } => StepView::ReassignWindow {
                window_id,
                space,
            },
            SpaceStep::QueryWindow { wsid, space, kind } => StepView::QueryWindow {
                wsid,
                space,
                kind,
            },
            SpaceStep::UpdateWindowServerInfo(info) => StepView::UpdateWindowServerInfo(info),
            SpaceStep::AnnounceApp { pid } => StepView::AnnounceApp { pid },
            SpaceStep::ResetDrag => StepView::ResetDrag,
            SpaceStep::RepairSpacesAfterMissionControl => StepView::RepairSpacesAfterMissionControl,
            SpaceStep::RefreshWindowsAfterMissionControl =>
                StepView::RefreshWindowsAfterMissionControl,
        }
    }
}

/// What the steps say.
pub open spec fn steps_view(steps: Seq<SpaceStep>) -> Seq<StepView> {
    steps.map_values(|step: SpaceStep| step@)
}

/// What is asked of the outside about a window before an event is decided on:
/// the space where it is seen to be, and whether the window server still has it
/// among the windows that are ordered in.
#[derive(Clone, Copy, Debug, PartialEq, Eq, Structural)]
pub struct WindowSighting {
    pub best_space: Option<SpaceId>,
    pub ordered_in: bool,
}

/// A window as the window server describes it, and whether it is too small to
/// be managed.
#[derive(Clone, Copy, Debug, PartialEq, Eq, Structural)]
pub struct ObservedWindow {
    pub info: WindowServerInfo,
    pub too_small: bool,
}

/// The state that events are decided on.
pub struct Reactor {
    pub workspaces: VirtualWorkspaceManager,
    pub space_state: SpaceState,
    pub native_fullscreen_tracks: IdMap<SpaceId, FullscreenSpaceTrack>,
    /// The apps that can be sent requests.
    pub apps: IdSet<Pid>,
    /// The windows that have been asked to take a frame and have not yet.
    pub pending_targets: IdSet<WindowServerId>,
    pub pending_space_change: Option<ForwardedSpaceState>,
    pub drag_state: DragState,
    pub skip_layout_for_window: Option<WindowId>,
    pub mission_control_active: bool,
    pub stale_cleanup_state: StaleCleanupState,
}

impl Reactor {
    /// A reactor that has not been told of any screen or app.
    pub fn new(workspaces: VirtualWorkspaceManager) -> (r: Self)
        ensures
            r@ == ReactorView::idle(workspaces@),
    {
        let r = Reactor {
            workspaces,
            space_state: SpaceState {
                screens: Vec::new(),
                fullscreen_spaces: Vec::new(),
                has_seen_display_set: false,
                active_spaces: Vec::new(),
                command_space: None,
                display_space_ids: Vec::new(),
                last_user_space_by_display: Vec::new(),
            },
            native_fullscreen_tracks: IdMap::new(),
            apps: IdSet::new(),
            pending_targets: IdSet::new(),
            pending_space_change: None,
            drag_state: DragState::Inactive,
            skip_layout_for_window: None,
            mission_control_active: false,
            stale_cleanup_state: StaleCleanupState::Enabled,
        };
        assert(r@ =~= ReactorView::idle(workspaces@));
        r
    }
}

/// The contents of a `Reactor`.
#[verifier::ext_equal]
pub struct ReactorView {
    pub manager: ManagerView,
    pub spaces: SpaceStateView,
    pub tracks: Map<SpaceId, Seq<FullscreenWindowTrack>>,
    pub apps: Set<Pid>,
    pub pending_targets: Set<WindowServerId>,
    pub pending_change: Option<SnapshotView>,
    pub drag_state: DragState,
    pub skip_layout_for_window: Option<WindowId>,
    pub mission_control_active: bool,
    pub stale_cleanup_state: StaleCleanupState,
}

pub open spec fn track_lists(tracks: Map<SpaceId, FullscreenSpaceTrack>) -> Map<
    SpaceId,
    Seq<FullscreenWindowTrack>,
> {
    tracks.map_values(|track: FullscreenSpaceTrack| track.windows@)
}

pub open spec fn change_view(change: Option<ForwardedSpaceState>) -> Option<SnapshotView> {
    match change {
        Some(change) => Some(change@),
        None => None,
    }
}

impl View for Reactor {
    type V = ReactorView;

    open spec fn view(&self) -> ReactorView {
        ReactorView {
            manager: self.workspaces@,
            spaces: self.space_state@,
            tracks: track_lists(self.native_fullscreen_tracks@),
            apps: self.apps@,
            pending_targets: self.pending_targets@,
            pending_change: change_view(self.pending_space_change),
            drag_state: self.drag_state,
            skip_layout_for_window: self.skip_layout_for_window,
            mission_control_active: self.mission_control_active,
            stale_cleanup_state: self.stale_cleanup_state,
        }
    }
}

/// The space of the first screen that shows one.
pub open spec fn first_space(screens: Seq<ScreenInfo>) -> Option<SpaceId>
    decreases screens.len(),
{
    if screens.len() == 0 {
        None
    } else if screens[0].space is Some {
        screens[0].space
    } else {
        first_space(screens.drop_first())
    }
}

/// The track is of the window, or of another one of the process.
pub open spec fn is_track_of(track: FullscreenWindowTrack, window_id: WindowId, pid: i32) -> bool {
    track.window_id == Some(window_id) || track.pid == pid
}

impl ReactorView {
    /// Nothing is known of screens and apps.
    pub open spec fn idle(manager: ManagerView) -> Self {
        ReactorView {
            manager,
            spaces: SpaceStateView {
                screens: Seq::empty(),
                fullscreen_spaces: Seq::empty(),
                has_seen_display_set: false,
                active_spaces: Seq::empty(),
                command_space: None,
                display_space_ids: Seq::empty(),
                last_user_space_by_display: Seq::empty(),
            },
            tracks: Map::empty(),
            apps: Set::empty(),
            pending_targets: Set::empty(),
            pending_change: None,
            drag_state: DragState::Inactive,
            skip_layout_for_window: None,
            mission_control_active: false,
            stale_cleanup_state: StaleCleanupState::Enabled,
        }
    }

    pub open spec fn records(self) -> RegistryView {
        self.manager.records()
    }

    pub open spec fn with_records(self, records: RegistryView) -> Self {
        ReactorView { manager: self.manager.with_registry(records), ..self }
    }

    pub open spec fn is_active(self, space: SpaceId) -> bool {
        self.spaces.active_spaces.contains(space)
    }

    /// The space of the workspace that the window is assigned to.
    pub open spec fn assigned_space(self, window_id: WindowId) -> Option<SpaceId> {
        match self.records().workspace_of(window_id) {
            Some(info) => Some(info.space),
            None => None,
        }
    }

    /// The space that a window in fullscreen comes from: where it is seen, or
    /// else the first one shown.
    pub open spec fn home_space(
        self,
        window_id: Option<WindowId>,
        best_space: Option<SpaceId>,
    ) -> Option<SpaceId> {
        if window_id is Some && best_space is Some {
            best_space
        } else {
            first_space(self.spaces.screens)
        }
    }

    pub open spec fn tracks_in(self, space: SpaceId) -> Seq<FullscreenWindowTrack> {
        if self.tracks.contains_key(space) {
            self.tracks[space]
        } else {
            Seq::empty()
        }
    }

    /// One window more that has gone into the fullscreen space `sid`.
    pub open spec fn with_track(
        self,
        sid: SpaceId,
        pid: i32,
        window_id: Option<WindowId>,
        last_known_user_space: Option<SpaceId>,
    ) -> Self {
        let track = FullscreenWindowTrack {
            pid,
            window_id,
            last_known_user_space,
            last_seen_fullscreen_space: sid,
        };
        ReactorView {
            tracks: self.tracks.insert(sid, self.tracks_in(sid).push(track)),
            ..self
        }
    }

    /// Some window of the process has gone into fullscreen.
    pub open spec fn has_track_of_pid(self, pid: i32) -> bool {
        exists|space: SpaceId, i: int|
            #![trigger self.tracks[space][i]]
            self.tracks.contains_key(space) && 0 <= i < self.tracks[space].len()
                && self.tracks[space][i].pid == pid
    }

    /// The window, or another one of the process, has gone into fullscreen.
    pub open spec fn has_track_of(self, window_id: WindowId, pid: i32) -> bool {
        exists|space: SpaceId, i: int|
            #![trigger self.tracks[space][i]]
            self.tracks.contains_key(space) && 0 <= i < self.tracks[space].len() && is_track_of(
                self.tracks[space][i],
                window_id,
                pid,
            )
    }

    /// The tracks that remain of a list when those of the window and of the
    /// process are dropped.
    pub open spec fn remaining(
        tracks: Seq<FullscreenWindowTrack>,
        window_id: WindowId,
        pid: i32,
    ) -> Seq<FullscreenWindowTrack> {
        tracks.filter(|track: FullscreenWindowTrack| !is_track_of(track, window_id, pid))
    }

    /// The window and the others of the process out of fullscreen.
    pub open spec fn without_tracks_of(self, window_id: WindowId, pid: i32) -> Self {
        ReactorView {
            tracks: Map::new(
                |space: SpaceId|
                    self.tracks.contains_key(space) && Self::remaining(
                        self.tracks[space],
                        window_id,
                        pid,
                    ).len() > 0,
                |space: SpaceId| Self::remaining(self.tracks[space], window_id, pid),
            ),
            ..self
        }
    }

    /// The request to an app, if it can be sent any.
    pub open spec fn request(self, pid: i32, request: AppRequest) -> Seq<StepView> {
        if self.apps.contains(Pid { raw: pid }) {
            seq![StepView::SendRequest { pid, request }]
        } else {
            Seq::empty()
        }
    }

    /// The window out of the layout, if it is assigned to `space`.
    pub open spec fn layout_removal(self, window_id: WindowId, space: SpaceId) -> Seq<StepView> {
        if self.assigned_space(window_id) == Some(space) {
            seq![
                StepView::SendLayoutEvent(LayoutEvent::WindowRemovedPreserveFloating(window_id)),
            ]
        } else {
            Seq::empty()
        }
    }

    /// The event is an echo of a move that is still going on: the window has
    /// been asked to take a frame, and is known to be in another space.
    pub open spec fn is_stale(self, wsid: WindowServerId, space: SpaceId) -> bool {
        self.pending_targets.contains(wsid) && match self.records().server(wsid).space {
            Some(recorded) => recorded != space,
            None => false,
        }
    }
}

pub open spec fn when(condition: bool, step: StepView) -> Seq<StepView> {
    if condition {
        seq![step]
    } else {
        Seq::empty()
    }
}

} // verus!
