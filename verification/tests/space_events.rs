use rift_workspaces::config::{LayoutSettings, VirtualWorkspaceSettings};
use rift_workspaces::ids::{Pid, SpaceId, WindowId, WindowServerId};
use rift_workspaces::manager::VirtualWorkspaceManager;
use rift_workspaces::reactor::{
    AppRequest, DragState, ForwardedSpaceState, FullscreenWindowTrack, LayoutEvent,
    ObservedWindow, Reactor, ScreenInfo, SpaceEventKind, SpaceStep, StaleCleanupState,
    TopologyWindowDelta, WindowSighting,
};
use rift_workspaces::space_events::SpaceEventHandler;
use rift_workspaces::window::{Extent, Frame, WindowInfo, WindowServerInfo, WindowState};
use rift_workspaces::window_registry::WindowRegistry;

fn rect(x: f64, y: f64, width: f64, height: f64) -> Frame {
    Frame { x: x.to_bits(), y: y.to_bits(), width: width.to_bits(), height: height.to_bits() }
}

fn seen() -> WindowSighting {
    WindowSighting { best_space: None, ordered_in: true }
}

fn new_reactor() -> Reactor {
    let manager = VirtualWorkspaceManager::new_with_config(
        &VirtualWorkspaceSettings::default(),
        &LayoutSettings::default(),
    );
    Reactor::new(manager)
}

fn make_screen_snapshots(frames: Vec<Frame>, spaces: Vec<Option<SpaceId>>) -> Vec<ScreenInfo> {
    frames
        .into_iter()
        .zip(spaces)
        .enumerate()
        .map(|(i, (frame, space))| ScreenInfo {
            id: i as u32,
            frame,
            display_uuid: format!("test-display-{}", i),
            name: None,
            space,
        })
        .collect()
}

fn snapshot(frames: Vec<Frame>, spaces: Vec<Option<SpaceId>>) -> ForwardedSpaceState {
    ForwardedSpaceState {
        active_spaces: spaces.iter().flatten().copied().collect(),
        command_space: spaces.first().copied().flatten(),
        screens: make_screen_snapshots(frames, spaces),
        fullscreen_spaces: Vec::new(),
        has_seen_display_set: true,
        display_space_ids: Vec::new(),
        last_user_space_by_display: Vec::new(),
        space_remaps: Vec::new(),
        display_set_changed: false,
        topology_changed: false,
        allow_space_remap: false,
        should_force_refresh_layout: false,
        resized_spaces: Vec::new(),
        topology_window_delta: None,
    }
}

/// Takes the steps as far as they bear on the state; returns all of them.
fn take(reactor: &mut Reactor, steps: Vec<SpaceStep>) -> Vec<SpaceStep> {
    let mut taken = Vec::new();
    for step in steps {
        let next = match &step {
            SpaceStep::ApplyActiveSpaces(spaces) => {
                reactor.space_state.active_spaces = spaces.clone();
                Vec::new()
            }
            SpaceStep::RecomputeActiveSpaces => {
                reactor.space_state.active_spaces = Vec::new();
                Vec::new()
            }
            SpaceStep::RemapSpace { previous, space } => {
                reactor.workspaces.remap_space(*previous, *space);
                Vec::new()
            }
            SpaceStep::ExposeResized { space, size } => {
                SpaceEventHandler::handle_space_resized(reactor, *space, *size)
            }
            SpaceStep::WindowDisappeared { wsid, space } => {
                SpaceEventHandler::handle_window_server_destroyed(
                    reactor,
                    *wsid,
                    *space,
                    SpaceEventKind::User,
                    seen(),
                )
            }
            SpaceStep::WindowAppeared { wsid, space } => {
                SpaceEventHandler::handle_window_server_appeared(
                    reactor,
                    *wsid,
                    *space,
                    SpaceEventKind::User,
                    seen(),
                )
            }
            SpaceStep::ReassignWindow { window_id, space } => {
                let changed = reactor.assigned_space_for_window_id(*window_id) != Some(*space);
                if changed {
                    reactor.workspaces.auto_assign_window(*window_id, *space).unwrap();
                }
                SpaceEventHandler::handle_window_reassigned(changed)
            }
            _ => Vec::new(),
        };
        taken.push(step);
        taken.extend(take(reactor, next));
    }
    taken
}

fn report(reactor: &mut Reactor, state: ForwardedSpaceState) -> Vec<SpaceStep> {
    let steps = SpaceEventHandler::handle_space_state_changed(reactor, state);
    take(reactor, steps)
}

fn appear(
    reactor: &mut Reactor,
    wsid: WindowServerId,
    space: SpaceId,
    kind: SpaceEventKind,
) -> Vec<SpaceStep> {
    let steps =
        SpaceEventHandler::handle_window_server_appeared(reactor, wsid, space, kind, seen());
    take(reactor, steps)
}

fn vanish(
    reactor: &mut Reactor,
    wsid: WindowServerId,
    space: SpaceId,
    ordered_in: bool,
) -> Vec<SpaceStep> {
    let steps = SpaceEventHandler::handle_window_server_destroyed(
        reactor,
        wsid,
        space,
        SpaceEventKind::User,
        WindowSighting { best_space: None, ordered_in },
    );
    take(reactor, steps)
}

fn registry(reactor: &mut Reactor) -> &mut WindowRegistry {
    reactor.workspaces.window_registry_mut().get_mut()
}

fn window_state(title: &str, frame: Frame, wsid: WindowServerId) -> WindowState {
    WindowState {
        info: WindowInfo {
            is_standard: true,
            is_root: true,
            is_minimized: false,
            is_resizable: true,
            min_size: None,
            max_size: None,
            title: title.to_string(),
            frame,
            sys_id: Some(wsid),
            bundle_id: None,
            path: None,
            ax_role: None,
            ax_subrole: None,
        },
        frame_monotonic: frame,
        is_manageable: true,
        ignore_app_rule: false,
    }
}

fn server_info(wsid: WindowServerId, pid: i32, frame: Frame) -> WindowServerInfo {
    let size = Extent { width: frame.width, height: frame.height };
    WindowServerInfo { id: wsid, pid, layer: 0, frame, min_frame: size, max_frame: size }
}

fn has_step(steps: &[SpaceStep], wanted: LayoutEvent) -> bool {
    steps.iter().any(|step| matches!(step, SpaceStep::SendLayoutEvent(event) if *event == wanted))
}

fn requests(steps: &[SpaceStep]) -> Vec<(i32, AppRequest)> {
    steps
        .iter()
        .filter_map(|step| match step {
            SpaceStep::SendRequest { pid, request } => Some((*pid, *request)),
            _ => None,
        })
        .collect()
}

fn spaces_of(reactor: &Reactor) -> Vec<Option<SpaceId>> {
    reactor.space_state.screens.iter().map(|screen| screen.space).collect()
}

fn tracks_of(reactor: &Reactor, space: SpaceId) -> Vec<FullscreenWindowTrack> {
    match reactor.native_fullscreen_tracks.get(space) {
        Some(track) => track.windows.clone(),
        None => Vec::new(),
    }
}

/// Builds a reactor with `space1` active on a screen and a single tiled window
/// assigned to `space1`. `space2` exists with workspaces so it can be a
/// reassignment target.
fn reactor_with_window_on_space1() -> (Reactor, WindowId, WindowServerId, SpaceId, SpaceId, Frame) {
    let mut reactor = new_reactor();
    let pid = 1;
    let frame = rect(0., 0., 1440., 900.);
    let space1 = SpaceId::new(1);
    let space2 = SpaceId::new(2);
    let wid = WindowId::new(pid, 1);
    let wsid = WindowServerId::new(101);

    report(&mut reactor, snapshot(vec![frame], vec![Some(space1)]));
    reactor.apps.insert(Pid { raw: pid });
    let space1_workspace = reactor.workspaces.list_workspaces(space1)[0].0;
    reactor.workspaces.list_workspaces(space2);

    let windows = registry(&mut reactor);
    windows.track_window_server_id(wsid, wid);
    windows.track_window_server_info(server_info(wsid, pid, frame));
    windows.set_window_server_space(wsid, Some(space1));
    windows.mark_window_visible(wsid);
    windows.insert_window(wid, window_state("Window", frame, wsid));
    assert!(reactor.workspaces.assign_window_to_workspace(space1, wid, space1_workspace));
    assert_eq!(reactor.assigned_space_for_window_id(wid), Some(space1));

    (reactor, wid, wsid, space1, space2, frame)
}

fn reactor_with_window_moved_to_space2(
) -> (Reactor, WindowId, WindowServerId, SpaceId, SpaceId, Frame) {
    let mut reactor = new_reactor();
    let pid = 1;
    let screen1 = rect(0., 0., 1440., 900.);
    let screen2 = rect(1440., 0., 1440., 900.);
    let moved_frame = rect(1600., 100., 800., 600.);
    let space1 = SpaceId::new(1);
    let space2 = SpaceId::new(2);
    let wid = WindowId::new(pid, 1);
    let wsid = WindowServerId::new(111);

    report(&mut reactor, snapshot(vec![screen1, screen2], vec![Some(space1), Some(space2)]));
    reactor.apps.insert(Pid { raw: pid });
    let space1_workspace = reactor.workspaces.list_workspaces(space1)[0].0;
    let space2_workspace = reactor.workspaces.list_workspaces(space2)[0].0;

    let windows = registry(&mut reactor);
    windows.track_window_server_id(wsid, wid);
    windows.track_window_server_info(server_info(wsid, pid, moved_frame));
    windows.set_window_server_space(wsid, Some(space2));
    windows.mark_window_visible(wsid);
    windows.insert_window(wid, window_state("Window", moved_frame, wsid));
    assert!(reactor.workspaces.assign_window_to_workspace(space1, wid, space1_workspace));
    assert!(reactor.workspaces.assign_window_to_workspace(space2, wid, space2_workspace));
    reactor.pending_targets.insert(wsid);
    assert_eq!(reactor.assigned_space_for_window_id(wid), Some(space2));

    (reactor, wid, wsid, space1, space2, moved_frame)
}

#[test]
fn it_clears_screen_state_when_no_displays_are_reported() {
    let mut reactor = new_reactor();
    let screen = rect(0., 0., 1000., 1000.);

    report(&mut reactor, snapshot(vec![screen], vec![Some(SpaceId::new(1))]));
    assert_eq!(1, reactor.space_state.screens.len());

    let steps = report(&mut reactor, snapshot(vec![], vec![]));
    assert!(matches!(steps[0], SpaceStep::ExposeAllSpaces));
    assert!(reactor.space_state.screens.is_empty());
    assert_eq!(reactor.space_state.command_space, None);
    assert!(reactor.space_state.display_space_ids.is_empty());
    assert_eq!(reactor.stale_cleanup_state, StaleCleanupState::Suppressed);

    let steps = report(&mut reactor, snapshot(vec![], vec![]));
    assert!(matches!(steps[0], SpaceStep::RecomputeActiveSpaces));
    assert!(reactor.space_state.screens.is_empty());
    assert_eq!(reactor.space_state.command_space, None);

    report(&mut reactor, snapshot(vec![screen], vec![Some(SpaceId::new(1))]));
    assert_eq!(1, reactor.space_state.screens.len());
    assert_eq!(reactor.stale_cleanup_state, StaleCleanupState::Enabled);
}

#[test]
fn workspace_command_space_follows_forwarded_space_snapshot() {
    let mut reactor = new_reactor();
    let screen = rect(0., 0., 1000., 1000.);
    let old_space = SpaceId::new(1);
    let new_space = SpaceId::new(2);

    report(&mut reactor, snapshot(vec![screen], vec![Some(old_space)]));
    assert_eq!(reactor.space_state.command_space, Some(old_space));

    report(&mut reactor, snapshot(vec![screen], vec![Some(new_space)]));
    assert_eq!(reactor.space_state.command_space, Some(new_space));
}

#[test]
fn command_space_only_snapshot_does_not_trigger_full_space_reconcile() {
    let mut reactor = new_reactor();
    let left = rect(0., 0., 1000., 1000.);
    let right = rect(1000., 0., 1000., 1000.);
    let space1 = SpaceId::new(1);
    let space2 = SpaceId::new(2);

    let mut state = snapshot(vec![left, right], vec![Some(space1), Some(space2)]);
    state.command_space = Some(space1);
    assert!(!report(&mut reactor, state).is_empty());

    let mut state = snapshot(vec![left, right], vec![Some(space1), Some(space2)]);
    state.command_space = Some(space2);
    let steps = report(&mut reactor, state);

    assert_eq!(reactor.space_state.command_space, Some(space2));
    assert!(
        steps.is_empty(),
        "changing only command_space should not trigger visible-window refresh or space reconciliation"
    );

    // A snapshot that says the same again is taken over in full.
    let mut state = snapshot(vec![left, right], vec![Some(space1), Some(space2)]);
    state.command_space = Some(space2);
    assert!(!report(&mut reactor, state).is_empty());
}

#[test]
fn forwarded_space_state_updates_fullscreen_spaces() {
    let mut reactor = new_reactor();
    let screen = rect(0., 0., 1000., 1000.);
    let user_space = SpaceId::new(1);
    let fullscreen_space = SpaceId::new(0x400000000 + user_space.get());

    let mut state = snapshot(vec![screen], vec![Some(user_space)]);
    state.fullscreen_spaces = vec![fullscreen_space];
    state.has_seen_display_set = false;
    report(&mut reactor, state);

    assert!(reactor.space_state.fullscreen_spaces.contains(&fullscreen_space));
}

#[test]
fn workspace_queries_are_isolated_per_macos_space() {
    let mut reactor = new_reactor();
    let left = rect(0., 0., 1000., 1000.);
    let right = rect(1000., 0., 1000., 1000.);
    let space1 = SpaceId::new(1);
    let space2 = SpaceId::new(2);
    report(&mut reactor, snapshot(vec![left, right], vec![Some(space1), Some(space2)]));

    let first = reactor.workspaces.list_workspaces(space1)[0].0;
    let second = reactor.workspaces.list_workspaces(space2)[1].0;
    assert!(reactor.workspaces.set_active_workspace(space1, first));
    assert!(reactor.workspaces.set_active_workspace(space2, second));

    assert_ne!(
        reactor.workspaces.active_workspace_idx(space1),
        reactor.workspaces.active_workspace_idx(space2),
        "each macOS space must retain its own active virtual workspace state",
    );

    report(&mut reactor, snapshot(vec![left], vec![Some(space2)]));
    assert_eq!(reactor.space_state.command_space, Some(space2));
    assert_eq!(reactor.workspaces.active_workspace_idx(space2), Some(1));
}

#[test]
fn user_space_window_server_events_preserve_hidden_window_state() {
    let mut reactor = new_reactor();
    let frame = rect(0., 0., 1000., 1000.);
    let space1 = SpaceId::new(1);
    let wid = WindowId::new(1, 1);
    let wsid = WindowServerId::new(21);

    report(&mut reactor, snapshot(vec![frame], vec![Some(space1)]));
    let windows = registry(&mut reactor);
    windows.track_window_server_id(wsid, wid);
    windows.set_window_server_space(wsid, Some(space1));
    windows.insert_window(wid, window_state("Window", frame, wsid));

    vanish(&mut reactor, wsid, space1, true);

    assert!(registry(&mut reactor).contains_window(wid));
    assert_eq!(registry(&mut reactor).window_server_space(wsid), Some(space1));
    assert!(!registry(&mut reactor).is_window_visible(wsid));
}

#[test]
fn user_space_window_server_destroyed_removes_window_when_window_server_is_gone() {
    let mut reactor = new_reactor();
    let frame = rect(0., 0., 1000., 1000.);
    let space1 = SpaceId::new(1);
    let wid = WindowId::new(1, 1);
    let wsid = WindowServerId::new(22);

    report(&mut reactor, snapshot(vec![frame], vec![Some(space1)]));
    let windows = registry(&mut reactor);
    windows.track_window_server_id(wsid, wid);
    windows.set_window_server_space(wsid, Some(space1));
    windows.mark_window_visible(wsid);
    windows.insert_window(wid, window_state("Window", frame, wsid));

    vanish(&mut reactor, wsid, space1, false);

    assert!(!registry(&mut reactor).contains_window(wid));
    assert_eq!(registry(&mut reactor).tracked_window_id(wsid), None);
    assert_eq!(reactor.assigned_space_for_window_id(wid), None);
}

#[test]
fn appeared_reassigns_window_without_pending_rift_move() {
    let (mut reactor, wid, wsid, space1, space2, _frame) = reactor_with_window_on_space1();

    // No pending move: this is a genuine external space change.
    assert_eq!(reactor.assigned_space_for_window_id(wid), Some(space1));

    appear(&mut reactor, wsid, space2, SpaceEventKind::User);

    assert_eq!(
        reactor.assigned_space_for_window_id(wid),
        Some(space2),
        "window without an in-flight Rift move must follow a genuine external space change"
    );
}

#[test]
fn stale_user_space_disappearance_does_not_restore_old_display_assignment() {
    let (mut reactor, wid, wsid, space1, space2, _) = reactor_with_window_moved_to_space2();

    let steps = vanish(&mut reactor, wsid, space1, true);
    assert_eq!(steps.len(), 1);
    assert_eq!(requests(&steps), vec![(wid.pid, AppRequest::WindowMaybeDestroyed(wid))]);

    assert_eq!(registry(&mut reactor).window_server_space(wsid), Some(space2));
    assert_eq!(reactor.assigned_space_for_window_id(wid), Some(space2));
    assert!(registry(&mut reactor).is_window_visible(wsid));
}

#[test]
fn stale_user_space_appearance_does_not_restore_old_display_assignment() {
    let (mut reactor, wid, wsid, space1, space2, _) = reactor_with_window_moved_to_space2();

    assert!(appear(&mut reactor, wsid, space1, SpaceEventKind::User).is_empty());

    assert_eq!(registry(&mut reactor).window_server_space(wsid), Some(space2));
    assert_eq!(reactor.assigned_space_for_window_id(wid), Some(space2));
}

#[test]
fn stale_user_space_appearance_is_ignored_when_server_state_already_matches_pending_target() {
    let (mut reactor, wid, wsid, space1, space2, _frame) = reactor_with_window_moved_to_space2();
    let space1_workspace = reactor.workspaces.list_workspaces(space1)[0].0;

    assert!(reactor.workspaces.assign_window_to_workspace(space1, wid, space1_workspace));
    registry(&mut reactor).set_window_server_space(wsid, Some(space1));
    reactor.pending_targets.insert(wsid);

    appear(&mut reactor, wsid, space2, SpaceEventKind::User);

    assert_eq!(registry(&mut reactor).window_server_space(wsid), Some(space1));
    assert_eq!(reactor.assigned_space_for_window_id(wid), Some(space1));
}

#[test]
fn stale_user_space_appearance_is_ignored_when_authoritative_window_space_differs() {
    let (mut reactor, wid, wsid, space1, space2, _frame) = reactor_with_window_moved_to_space2();

    let steps = SpaceEventHandler::handle_window_server_appeared(
        &mut reactor,
        wsid,
        space1,
        SpaceEventKind::User,
        WindowSighting { best_space: Some(space2), ordered_in: true },
    );
    assert!(steps.is_empty());

    assert_eq!(registry(&mut reactor).window_server_space(wsid), Some(space2));
    assert_eq!(reactor.assigned_space_for_window_id(wid), Some(space2));
}

#[test]
fn multi_active_visible_window_appearance_keeps_display_assignment_and_visibility() {
    let (mut reactor, wid, wsid, space1, space2, _frame) = reactor_with_window_moved_to_space2();

    appear(&mut reactor, wsid, space1, SpaceEventKind::User);

    assert_eq!(registry(&mut reactor).window_server_space(wsid), Some(space2));
    assert_eq!(reactor.assigned_space_for_window_id(wid), Some(space2));
    assert!(registry(&mut reactor).is_window_visible(wsid));
}

#[test]
fn multi_active_visible_window_disappearance_does_not_reassign_between_display_spaces() {
    let (mut reactor, wid, wsid, space1, space2, _frame) = reactor_with_window_moved_to_space2();

    vanish(&mut reactor, wsid, space1, true);

    assert_eq!(registry(&mut reactor).window_server_space(wsid), Some(space2));
    assert_eq!(reactor.assigned_space_for_window_id(wid), Some(space2));
    assert!(registry(&mut reactor).is_window_visible(wsid));
}

#[test]
fn hidden_window_can_move_to_another_native_space_without_staying_pinned_to_old_display() {
    let mut settings = VirtualWorkspaceSettings::default();
    settings.default_workspace_count = 2;
    let mut reactor = Reactor::new(VirtualWorkspaceManager::new_with_config(
        &settings,
        &LayoutSettings::default(),
    ));
    let pid = 1;
    let left = rect(0., 0., 1440., 900.);
    let right = rect(1440., 0., 1440., 900.);
    let frame = rect(100., 100., 800., 600.);
    let space1 = SpaceId::new(1);
    let space2 = SpaceId::new(2);
    let wid = WindowId::new(pid, 1);
    let wsid = WindowServerId::new(121);

    report(&mut reactor, snapshot(vec![left, right], vec![Some(space1), Some(space2)]));
    reactor.apps.insert(Pid { raw: pid });
    let workspaces = reactor.workspaces.list_workspaces(space1);
    let hidden_workspace = workspaces[0].0;
    let visible_workspace = workspaces[1].0;
    reactor.workspaces.list_workspaces(space2);

    let windows = registry(&mut reactor);
    windows.track_window_server_id(wsid, wid);
    windows.track_window_server_info(server_info(wsid, pid, frame));
    windows.set_window_server_space(wsid, Some(space1));
    windows.mark_window_visible(wsid);
    windows.insert_window(wid, window_state("Window", frame, wsid));
    assert!(reactor.workspaces.set_active_workspace(space1, visible_workspace));
    assert!(reactor.workspaces.assign_window_to_workspace(space1, wid, hidden_workspace));

    appear(&mut reactor, wsid, space2, SpaceEventKind::User);

    assert_eq!(registry(&mut reactor).window_server_space(wsid), Some(space2));
    assert_eq!(reactor.assigned_space_for_window_id(wid), Some(space2));
}

#[test]
fn known_fullscreen_window_appearance_removes_window_from_layout() {
    let (mut reactor, wid, wsid, user_space, _other, _frame) = reactor_with_window_on_space1();
    let fullscreen_space = SpaceId::new(0x400000000 + user_space.get());

    let steps = appear(&mut reactor, wsid, fullscreen_space, SpaceEventKind::Fullscreen);

    assert!(
        has_step(&steps, LayoutEvent::WindowRemovedPreserveFloating(wid)),
        "managed window should be removed from layout when it enters native fullscreen"
    );
    assert!(matches!(steps[1], SpaceStep::UpdateLayout));
    assert_eq!(
        tracks_of(&reactor, fullscreen_space),
        vec![FullscreenWindowTrack {
            pid: 1,
            window_id: Some(wid),
            last_known_user_space: Some(user_space),
            last_seen_fullscreen_space: fullscreen_space,
        }],
        "fullscreen transition should record suspended window state"
    );
}

#[test]
fn known_window_server_appearance_restores_same_workspace_after_fullscreen() {
    let (mut reactor, wid, wsid, user_space, _other, _frame) = reactor_with_window_on_space1();
    let fullscreen_space = SpaceId::new(0x400000000 + user_space.get());

    appear(&mut reactor, wsid, fullscreen_space, SpaceEventKind::Fullscreen);
    let steps = appear(&mut reactor, wsid, user_space, SpaceEventKind::User);

    assert!(
        has_step(&steps, LayoutEvent::WindowAdded(user_space, wid)),
        "managed window should return to layout when native fullscreen exits back to the same space"
    );
    assert_eq!(requests(&steps), vec![(1, AppRequest::GetVisibleWindows)]);
    assert!(tracks_of(&reactor, fullscreen_space).is_empty());
    assert_eq!(reactor.assigned_space_for_window_id(wid), Some(user_space));
}

#[test]
fn fullscreen_tracking_survives_until_ax_window_id_arrives() {
    let mut reactor = new_reactor();
    let screen = rect(0., 0., 1000., 1000.);
    let user_space = SpaceId::new(1);
    let fullscreen_space = SpaceId::new(0x400000000 + user_space.get());
    let pid = 61;
    let wsid = WindowServerId::new((pid as u32).saturating_mul(10_000) + 1);
    let frame = rect(50., 50., 900., 700.);

    report(&mut reactor, snapshot(vec![screen], vec![Some(user_space)]));
    reactor.apps.insert(Pid { raw: pid });
    registry(&mut reactor).track_window_server_info(server_info(wsid, pid, frame));

    let steps = appear(&mut reactor, wsid, fullscreen_space, SpaceEventKind::Fullscreen);

    let tracks = tracks_of(&reactor, fullscreen_space);
    assert!(
        tracks.iter().any(|track| {
            track.pid == pid
                && track.window_id.is_none()
                && track.last_known_user_space == Some(user_space)
                && track.last_seen_fullscreen_space == fullscreen_space
        }),
        "fullscreen lifecycle should be retained by wsid until AX tracking binds the window"
    );
    assert_eq!(
        requests(&steps),
        vec![(pid, AppRequest::GetVisibleWindows)],
        "fullscreen appearance without AX tracking should still request a visible-window refresh"
    );

    let steps = appear(&mut reactor, wsid, user_space, SpaceEventKind::User);

    assert_eq!(
        requests(&steps),
        vec![(pid, AppRequest::GetVisibleWindows)],
        "fullscreen exit without AX tracking should request a visible-window refresh"
    );
    assert_eq!(tracks_of(&reactor, fullscreen_space).len(), 1);

    // Once the window is bound, its return retires the record.
    registry(&mut reactor).track_window_server_id(wsid, WindowId::new(pid, 1));
    appear(&mut reactor, wsid, user_space, SpaceEventKind::User);
    assert!(tracks_of(&reactor, fullscreen_space).is_empty());
    assert_eq!(
        reactor.assigned_space_for_window_id(WindowId::new(pid, 1)),
        Some(user_space)
    );
}

#[test]
fn fullscreen_exit_removes_non_queryable_duplicate_from_layout() {
    let (mut reactor, original_wid, original_wsid, user_space, other_space, frame) =
        reactor_with_window_on_space1();
    let fullscreen_space = SpaceId::new(0x400000000 + user_space.get());
    let duplicate_wid = WindowId::new(original_wid.pid, 27481);
    let duplicate_wsid = WindowServerId::new(27481);
    let active_workspace =
        reactor.workspaces.active_workspace(user_space).expect("active workspace");

    appear(&mut reactor, original_wsid, fullscreen_space, SpaceEventKind::Fullscreen);

    let windows = registry(&mut reactor);
    windows.track_window_server_id(duplicate_wsid, duplicate_wid);
    windows.track_window_server_info(server_info(duplicate_wsid, original_wid.pid, frame));
    windows.set_window_server_space(duplicate_wsid, Some(fullscreen_space));
    windows.mark_window_visible(duplicate_wsid);
    let mut state = window_state("Electron fullscreen projection", frame, duplicate_wsid);
    state.is_manageable = false;
    windows.insert_window(duplicate_wid, state);

    appear(&mut reactor, duplicate_wsid, fullscreen_space, SpaceEventKind::Fullscreen);

    assert!(reactor.workspaces.assign_window_to_workspace(
        user_space,
        duplicate_wid,
        active_workspace
    ));
    registry(&mut reactor).set_window_server_space(duplicate_wsid, Some(user_space));
    registry(&mut reactor).mark_window_visible(duplicate_wsid);
    let steps = appear(&mut reactor, duplicate_wsid, user_space, SpaceEventKind::User);

    assert!(
        has_step(&steps, LayoutEvent::WindowRemovedPreserveFloating(duplicate_wid)),
        "fullscreen restore must evict non-queryable duplicate layout ghosts"
    );
    assert_eq!(reactor.assigned_space_for_window_id(duplicate_wid), None);

    report(&mut reactor, snapshot(vec![frame], vec![Some(other_space)]));
    assert_eq!(reactor.assigned_space_for_window_id(duplicate_wid), None);
    report(&mut reactor, snapshot(vec![frame], vec![Some(user_space)]));
    assert_eq!(reactor.assigned_space_for_window_id(duplicate_wid), None);
}

#[test]
fn forwarded_space_state_is_queued_during_mission_control_and_applied_on_exit() {
    let mut reactor = new_reactor();
    let screen = rect(0., 0., 1000., 1000.);
    let old_space = SpaceId::new(1);
    let new_space = SpaceId::new(2);

    report(&mut reactor, snapshot(vec![screen], vec![Some(old_space)]));
    SpaceEventHandler::handle_mission_control_native_entered(&mut reactor);
    report(&mut reactor, snapshot(vec![screen], vec![Some(new_space)]));

    assert_eq!(
        reactor
            .pending_space_change
            .as_ref()
            .map(|pending| pending.screens.iter().map(|screen| screen.space).collect::<Vec<_>>()),
        Some(vec![Some(new_space)])
    );

    let steps = SpaceEventHandler::handle_mission_control_native_exited(&mut reactor);
    assert!(matches!(steps[0], SpaceStep::RepairSpacesAfterMissionControl));
    assert!(matches!(steps[1], SpaceStep::RefreshWindowsAfterMissionControl));
    let pending = reactor.take_pending_space_change().unwrap();
    report(&mut reactor, pending);

    assert_eq!(reactor.space_state.command_space, Some(new_space));
    assert!(reactor.is_space_active(new_space));
    assert!(reactor.pending_space_change.is_none());
}

#[test]
fn mission_control_exit_does_not_restore_cached_space_without_authoritative_snapshot() {
    let mut reactor = new_reactor();
    let screen = rect(0., 0., 1000., 1000.);
    let stale_space = SpaceId::new(1);

    report(&mut reactor, snapshot(vec![screen], vec![Some(stale_space)]));
    SpaceEventHandler::handle_mission_control_native_entered(&mut reactor);
    report(&mut reactor, snapshot(vec![screen], vec![None]));
    SpaceEventHandler::handle_mission_control_native_exited(&mut reactor);
    if let Some(pending) = reactor.take_pending_space_change() {
        report(&mut reactor, pending);
    }

    assert_eq!(reactor.space_state.command_space, None);
    assert_eq!(reactor.space_state.screens[0].space, None);
}

#[test]
fn mission_control_enter_clears_active_drag_state() {
    let mut reactor = new_reactor();
    let screen = rect(0., 0., 1000., 1000.);
    let space = SpaceId::new(1);
    let wid = WindowId::new(1, 1);
    let frame = rect(50., 50., 100., 100.);

    report(&mut reactor, snapshot(vec![screen], vec![Some(space)]));
    registry(&mut reactor)
        .insert_window(wid, window_state("Window", frame, WindowServerId::new(1)));
    reactor.drag_state = DragState::Active { window: wid, origin: frame };
    reactor.skip_layout_for_window = Some(wid);

    assert!(matches!(reactor.drag_state, DragState::Active { .. }));

    let steps = SpaceEventHandler::handle_mission_control_native_entered(&mut reactor);

    assert!(matches!(steps[0], SpaceStep::ResetDrag));
    assert!(matches!(reactor.drag_state, DragState::Inactive));
    assert!(reactor.skip_layout_for_window.is_none());
    assert!(reactor.mission_control_active);
}

#[test]
fn topology_window_delta_is_not_ignored_by_command_space_only_short_circuit() {
    let (mut reactor, wid, wsid, space1, space2, _frame) = reactor_with_window_on_space1();
    let screen1 = rect(0., 0., 1440., 900.);
    let screen2 = rect(1440., 0., 1440., 900.);
    report(&mut reactor, snapshot(vec![screen1, screen2], vec![Some(space1), Some(space2)]));

    let mut state = snapshot(vec![screen1, screen2], vec![Some(space1), Some(space2)]);
    state.topology_window_delta = Some(TopologyWindowDelta {
        epoch: 12,
        flags: 1,
        appeared: vec![(wsid, space2)],
        disappeared: vec![(wsid, space1)],
    });
    let steps = report(&mut reactor, state);

    assert!(has_step(&steps, LayoutEvent::WindowRemovedPreserveFloating(wid)));
    assert_eq!(
        reactor.assigned_space_for_window_id(wid),
        Some(space2),
        "topology delta should still be processed even when the forwarded screens snapshot is unchanged"
    );
    assert_eq!(registry(&mut reactor).window_server_space(wsid), Some(space2));
}

#[test]
fn forwarded_space_state_does_not_clear_existing_fullscreen_tracks_when_snapshot_has_none() {
    let (mut reactor, wid, wsid, user_space, current_space, frame) =
        reactor_with_window_on_space1();
    let fullscreen_space = SpaceId::new(0x400000001);

    appear(&mut reactor, wsid, fullscreen_space, SpaceEventKind::Fullscreen);
    report(&mut reactor, snapshot(vec![frame], vec![Some(current_space)]));

    assert!(
        tracks_of(&reactor, fullscreen_space)
            .iter()
            .any(|track| track.window_id == Some(wid)
                && track.last_known_user_space == Some(user_space)),
        "empty forwarded fullscreen state must not clear existing fullscreen exit tracking"
    );
}

#[test]
fn normal_macos_space_switch_does_not_arm_topology_relayout() {
    let mut reactor = new_reactor();
    let left = rect(0., 0., 1280., 800.);
    let right = rect(1280., 0., 1280., 800.);

    report(
        &mut reactor,
        snapshot(vec![left, right], vec![Some(SpaceId::new(11)), Some(SpaceId::new(22))]),
    );
    let steps = report(
        &mut reactor,
        snapshot(vec![left, right], vec![Some(SpaceId::new(111)), Some(SpaceId::new(222))]),
    );
    assert_eq!(
        spaces_of(&reactor),
        vec![Some(SpaceId::new(111)), Some(SpaceId::new(222))],
        "Screen state should still advance to the newly active macOS spaces"
    );
    assert!(reactor.is_space_active(SpaceId::new(111)));
    assert!(reactor.is_space_active(SpaceId::new(222)));
    assert!(!steps.iter().any(|step| matches!(step, SpaceStep::ForceRefreshAllWindows)));
}

#[test]
fn fullscreen_space_in_screen_params_does_not_trigger_topology_relayout() {
    let mut reactor = new_reactor();
    let frame = rect(0., 0., 1280., 800.);
    let user_space = SpaceId::new(11);
    let display_uuid = "11111111-1111-1111-1111-111111111111".to_string();
    let with_space = |space: Option<SpaceId>| {
        let mut state = snapshot(vec![frame], vec![space]);
        state.screens[0].display_uuid = display_uuid.clone();
        state
    };
    let shown = |steps: &[SpaceStep]| -> Vec<(SpaceId, String)> {
        steps
            .iter()
            .filter_map(|step| match step {
                SpaceStep::UpdateSpaceDisplay { space, display_uuid } => {
                    Some((*space, display_uuid.clone()))
                }
                _ => None,
            })
            .collect()
    };

    let steps = report(&mut reactor, with_space(Some(user_space)));
    assert_eq!(shown(&steps), vec![(user_space, display_uuid.clone())]);

    let steps = report(&mut reactor, with_space(None));
    assert!(
        shown(&steps).is_empty(),
        "fullscreen spaces should not replace display->user-space history"
    );

    let steps = report(&mut reactor, with_space(Some(user_space)));
    assert_eq!(shown(&steps), vec![(user_space, display_uuid.clone())]);
}

#[test]
fn fullscreen_transition_preserves_other_display_space() {
    let mut reactor = new_reactor();
    let left = rect(0., 0., 1000., 1000.);
    let right = rect(1000., 0., 1000., 1000.);
    let left_space_2 = SpaceId::new(12);
    let right_space_1 = SpaceId::new(21);

    report(
        &mut reactor,
        snapshot(vec![left, right], vec![Some(left_space_2), Some(right_space_1)]),
    );
    report(&mut reactor, snapshot(vec![left, right], vec![Some(left_space_2), None]));

    assert_eq!(
        spaces_of(&reactor),
        vec![Some(left_space_2), None],
        "fullscreen transitions on one display must not accept a transient user-space change on another display"
    );
}

#[test]
fn user_space_switch_is_allowed_while_other_display_already_fullscreen() {
    let mut reactor = new_reactor();
    let left = rect(0., 0., 1000., 1000.);
    let right = rect(1000., 0., 1000., 1000.);
    let left_space_2 = SpaceId::new(12);
    let left_space_1 = SpaceId::new(11);
    let right_space_1 = SpaceId::new(21);

    report(
        &mut reactor,
        snapshot(vec![left, right], vec![Some(left_space_2), Some(right_space_1)]),
    );
    report(&mut reactor, snapshot(vec![left, right], vec![Some(left_space_2), None]));
    report(&mut reactor, snapshot(vec![left, right], vec![Some(left_space_1), None]));

    assert_eq!(
        spaces_of(&reactor),
        vec![Some(left_space_1), None],
        "Once another display is already fullscreen, user space switches on this display should still be accepted"
    );
}

#[test]
fn a_snapshot_brings_its_steps_in_order() {
    let mut reactor = new_reactor();
    let screen = rect(0., 0., 1000., 1000.);
    let space = SpaceId::new(1);
    let size = Extent { width: 1000f64.to_bits(), height: 1000f64.to_bits() };
    reactor.pending_targets.insert(WindowServerId::new(4));
    let mut state = snapshot(vec![screen], vec![Some(space)]);
    state.display_set_changed = true;
    state.space_remaps = vec![(SpaceId::new(7), space)];
    state.resized_spaces = vec![(space, size), (SpaceId::new(8), size)];
    state.should_force_refresh_layout = true;
    let steps = report(&mut reactor, state);

    assert!(!reactor.pending_targets.contains(WindowServerId::new(4)));
    let names: Vec<String> = steps
        .iter()
        .map(|step| format!("{:?}", step))
        .map(|text| text.split(|c: char| !c.is_alphanumeric()).next().unwrap().to_string())
        .collect();
    assert_eq!(
        names,
        vec![
            "PruneDisplayState",
            "ClearPendingTargets",
            "NotifySpacesUpdated",
            "ApplyActiveSpaces",
            "RestoreWindowsAfterFullscreenExit",
            "UpdateSpaceDisplay",
            "RemapSpace",
            "ExposeResized",
            "SendLayoutEvent",
            "ExposeResized",
            "FinalizeSpaceChange",
            "TryApplyPendingSpaceChange",
            "ForceRefreshAllWindows",
            "UpdateLayoutAfterTopologyChange",
            "ReconcilePhantomWindows",
        ]
    );
    assert!(has_step(&steps, LayoutEvent::SpaceExposed(space, size)));
    // Only the active space was given workspaces.
    assert_eq!(reactor.workspaces.workspace_ids(space).len(), 4);
    assert!(reactor.workspaces.workspace_ids(SpaceId::new(8)).is_empty());
}

#[test]
fn unknown_windows_are_asked_for_once() {
    let mut reactor = new_reactor();
    let space = SpaceId::new(1);
    let wsid = WindowServerId::new(9);
    report(&mut reactor, snapshot(vec![rect(0., 0., 10., 10.)], vec![Some(space)]));

    let steps = appear(&mut reactor, wsid, space, SpaceEventKind::User);
    assert!(matches!(steps[0], SpaceStep::QueryWindow { .. }));
    assert!(registry(&mut reactor).is_window_server_observed(wsid));
    assert!(appear(&mut reactor, wsid, space, SpaceEventKind::User).is_empty());

    let info = server_info(wsid, 3, rect(0., 0., 100., 100.));
    let answer = |layer: i32, too_small: bool| {
        Some(ObservedWindow { info: WindowServerInfo { layer, ..info }, too_small })
    };
    let mut observe = |reactor: &mut Reactor, kind, answer| {
        SpaceEventHandler::handle_window_observed(reactor, wsid, space, kind, answer, seen())
    };
    assert!(observe(&mut reactor, SpaceEventKind::User, None).is_empty());
    assert!(observe(&mut reactor, SpaceEventKind::User, answer(3, false)).is_empty());
    assert!(observe(&mut reactor, SpaceEventKind::User, answer(0, true)).is_empty());

    let steps = observe(&mut reactor, SpaceEventKind::User, answer(0, false));
    assert!(matches!(steps[0], SpaceStep::UpdateWindowServerInfo(_)));
    assert!(matches!(steps[1], SpaceStep::AnnounceApp { pid: 3 }));

    reactor.apps.insert(Pid { raw: 3 });
    let steps = observe(&mut reactor, SpaceEventKind::User, answer(0, false));
    assert_eq!(requests(&steps), vec![(3, AppRequest::GetVisibleWindows)]);

    let steps = observe(&mut reactor, SpaceEventKind::Fullscreen, answer(0, false));
    assert_eq!(requests(&steps), vec![(3, AppRequest::GetVisibleWindows)]);
    assert_eq!(tracks_of(&reactor, space).len(), 1);
}

#[test]
fn a_fullscreen_window_that_is_gone_is_tracked() {
    let (mut reactor, wid, wsid, user_space, other, _frame) = reactor_with_window_on_space1();
    let fullscreen_space = SpaceId::new(0x400000000 + user_space.get());
    let destroyed = |reactor: &mut Reactor, wsid, best_space| {
        SpaceEventHandler::handle_window_server_destroyed(
            reactor,
            wsid,
            fullscreen_space,
            SpaceEventKind::Fullscreen,
            WindowSighting { best_space, ordered_in: true },
        )
    };
    // Nobody is known to own this window.
    assert!(destroyed(&mut reactor, WindowServerId::new(999), None).is_empty());
    assert!(tracks_of(&reactor, fullscreen_space).is_empty());

    let steps = destroyed(&mut reactor, wsid, None);
    assert!(has_step(&steps, LayoutEvent::WindowRemovedPreserveFloating(wid)));
    assert!(matches!(steps[1], SpaceStep::UpdateLayout));
    assert_eq!(requests(&steps), vec![(1, AppRequest::WindowMaybeDestroyed(wid))]);
    assert_eq!(
        tracks_of(&reactor, fullscreen_space)[0].last_known_user_space,
        Some(user_space)
    );

    // Seen elsewhere, it is not taken out of the layout.
    let steps = destroyed(&mut reactor, wsid, Some(other));
    assert!(!has_step(&steps, LayoutEvent::WindowRemovedPreserveFloating(wid)));
    assert_eq!(tracks_of(&reactor, fullscreen_space)[1].last_known_user_space, Some(other));
}

#[test]
fn windows_appear_quietly_while_mission_control_is_open() {
    let (mut reactor, _wid, wsid, _space1, space2, _frame) = reactor_with_window_on_space1();
    SpaceEventHandler::handle_mission_control_native_entered(&mut reactor);
    assert!(appear(&mut reactor, wsid, space2, SpaceEventKind::User).is_empty());
    assert_eq!(registry(&mut reactor).window_server_space(wsid), Some(space2));
}

#[test]
fn known_window_server_appearance_restores_layout_membership_without_reassignment() {
    let (mut reactor, wid, wsid, user_space, _other, _frame) = reactor_with_window_on_space1();
    assert_eq!(reactor.assigned_space_for_window_id(wid), Some(user_space));

    let steps = appear(&mut reactor, wsid, user_space, SpaceEventKind::User);

    assert!(
        steps.iter().any(|step| matches!(
            step,
            SpaceStep::ReassignWindow { window_id, space }
                if *window_id == wid && *space == user_space
        )),
        "same-space appearance should heal active layout membership even when workspace assignment already matches"
    );
    assert_eq!(reactor.assigned_space_for_window_id(wid), Some(user_space));
}

#[test]
fn fullscreen_restore_uses_live_rekeyed_window_id() {
    let (mut reactor, old_wid, wsid, user_space, _other, frame) = reactor_with_window_on_space1();
    let fullscreen_space = SpaceId::new(0x400000000 + user_space.get());
    let new_wid = WindowId::new(old_wid.pid, 1999);
    let workspace = reactor.workspaces.active_workspace(user_space).unwrap();

    appear(&mut reactor, wsid, fullscreen_space, SpaceEventKind::Fullscreen);

    reactor.workspaces.remove_window(old_wid);
    let windows = registry(&mut reactor);
    assert_eq!(windows.track_window_server_id(wsid, new_wid), Some(old_wid));
    windows.remove_window(old_wid);
    windows.insert_window(new_wid, window_state("Window", frame, wsid));
    assert!(reactor.workspaces.assign_window_to_workspace(user_space, new_wid, workspace));
    assert!(
        registry(&mut reactor).window(old_wid).is_none(),
        "rekey should retire the old AX window id before fullscreen restore"
    );

    let steps = appear(&mut reactor, wsid, user_space, SpaceEventKind::User);

    assert!(has_step(&steps, LayoutEvent::WindowAdded(user_space, new_wid)));
    assert!(!has_step(&steps, LayoutEvent::WindowAdded(user_space, old_wid)));
}

#[test]
fn a_stale_disappearance_still_takes_an_assigned_window_out_of_the_layout() {
    let (mut reactor, wid, wsid, space1, space2, _) = reactor_with_window_moved_to_space2();
    let space1_workspace = reactor.workspaces.list_workspaces(space1)[0].0;
    assert!(reactor.workspaces.assign_window_to_workspace(space1, wid, space1_workspace));

    let steps = vanish(&mut reactor, wsid, space1, true);

    assert!(has_step(&steps, LayoutEvent::WindowRemovedPreserveFloating(wid)));
    assert!(matches!(steps[1], SpaceStep::UpdateLayout));
    assert_eq!(requests(&steps), vec![(wid.pid, AppRequest::WindowMaybeDestroyed(wid))]);
    assert_eq!(registry(&mut reactor).window_server_space(wsid), Some(space2));
    assert!(registry(&mut reactor).is_window_visible(wsid));
}
