use rift_workspaces::ids::{SpaceId, WindowId, WindowServerId};
use rift_workspaces::manager::VirtualWorkspaceManager;
use rift_workspaces::window::{Extent, Frame, WindowInfo, WindowServerInfo, WindowState};
use rift_workspaces::window_registry::{
    WindowRegistry, WindowRegistryHandle, WindowWorkspaceInfo,
};
use rift_workspaces::workspace_id::VirtualWorkspaceId;
use std::time::{Duration, Instant};

fn bits(value: f64) -> u64 {
    value.to_bits()
}

fn frame() -> Frame {
    Frame { x: bits(1.0), y: bits(2.0), width: bits(3.0), height: bits(4.0) }
}

fn state(title: &str) -> WindowState {
    WindowState {
        info: WindowInfo {
            is_standard: true,
            is_root: true,
            is_minimized: false,
            is_resizable: true,
            min_size: None,
            max_size: None,
            title: title.to_string(),
            frame: frame(),
            sys_id: None,
            bundle_id: None,
            path: None,
            ax_role: None,
            ax_subrole: None,
        },
        frame_monotonic: frame(),
        is_manageable: true,
        ignore_app_rule: false,
    }
}

fn server_info(raw: u32, pid: i32) -> WindowServerInfo {
    let size = Extent { width: bits(3.0), height: bits(4.0) };
    WindowServerInfo {
        id: WindowServerId::new(raw),
        pid,
        layer: 0,
        frame: frame(),
        min_frame: size,
        max_frame: size,
    }
}

fn two_workspaces() -> (VirtualWorkspaceId, VirtualWorkspaceId) {
    let mut manager = VirtualWorkspaceManager::new();
    let listed = manager.list_workspaces(SpaceId::new(1));
    (listed[0].0, listed[1].0)
}

fn raw_ids(ids: Vec<WindowServerId>) -> Vec<u32> {
    let mut raw: Vec<u32> = ids.into_iter().map(|id| id.as_u32()).collect();
    raw.sort();
    raw
}

#[test]
fn authoritative_space_only_record_is_not_pruned() {
    let mut registry = WindowRegistry::default();
    let wsid = WindowServerId::new(77);
    let space = SpaceId::new(9);

    registry.set_window_server_space(wsid, Some(space));

    assert_eq!(registry.window_server_space(wsid), Some(space));
    assert_eq!(registry.iter_window_server_ids(), vec![wsid]);
}

#[test]
fn authoritative_space_record_is_pruned_when_space_is_cleared() {
    let mut registry = WindowRegistry::default();
    let wsid = WindowServerId::new(78);

    registry.set_window_server_space(wsid, Some(SpaceId::new(10)));
    registry.set_window_server_space(wsid, None);

    assert_eq!(registry.window_server_space(wsid), None);
    assert!(registry.iter_window_server_ids().is_empty());
}

#[test]
fn windows_are_inserted_changed_and_counted() {
    let mut registry = WindowRegistry::default();
    let a = WindowId::new(-7, 1);
    let b = WindowId::new(8, u32::MAX);
    assert!(!registry.contains_window(a));
    registry.insert_window(a, state("a"));
    registry.insert_window(b, state("b"));
    registry.set_last_rule_decision(WindowId::new(9, 1), true);

    assert_eq!(registry.tracked_window_count(), 2);
    assert_eq!(registry.window(a).unwrap().info.title, "a");
    registry.window_mut(a).unwrap().is_manageable = false;
    assert!(!registry.window(a).unwrap().is_manageable);
    assert!(registry.window_mut(WindowId::new(9, 1)).is_none());
    assert_eq!(registry.window_ids_for_pid(-7), vec![a]);
    assert!(registry.window_ids_for_pid(9).is_empty());

    let mut titles: Vec<String> =
        registry.iter_windows().iter().map(|(_, s)| s.info.title.clone()).collect();
    titles.sort();
    assert_eq!(titles, vec!["a".to_string(), "b".to_string()]);
}

#[test]
fn server_ids_are_tracked_and_replaced() {
    let mut registry = WindowRegistry::default();
    let wsid = WindowServerId::new(5);
    let a = WindowId::new(1, 1);
    let b = WindowId::new(1, 2);
    assert_eq!(registry.track_window_server_id(wsid, a), None);
    assert_eq!(registry.track_window_server_id(wsid, b), Some(a));
    assert_eq!(registry.tracked_window_id(wsid), Some(b));
    assert_eq!(registry.track_window_server_info(server_info(5, 1)), None);
    assert_eq!(registry.track_window_server_info(server_info(5, 2)).unwrap().pid, 1);
    assert_eq!(registry.get_window_server_info(wsid).unwrap().pid, 2);
    assert!(registry.knows_window_server_id(wsid));
    assert_eq!(registry.window_server_info_count(), 1);
    registry.mark_window_visible(WindowServerId::new(6));
    assert_eq!(raw_ids(registry.iter_tracked_window_server_ids()), vec![5]);
    assert_eq!(registry.remove_window_server_state(wsid), Some(b));
    assert_eq!(raw_ids(registry.iter_window_server_ids()), vec![6]);
}

#[test]
fn visibility_and_observation_report_changes() {
    let mut registry = WindowRegistry::default();
    let wsid = WindowServerId::new(5);
    assert!(registry.mark_window_visible(wsid));
    assert!(!registry.mark_window_visible(wsid));
    assert!(registry.is_window_visible(wsid));
    assert!(registry.mark_window_hidden(wsid));
    assert!(!registry.mark_window_hidden(wsid));
    assert!(registry.iter_window_server_ids().is_empty());

    assert!(registry.mark_window_server_observed(wsid));
    assert!(!registry.mark_window_server_observed(wsid));
    assert!(registry.is_window_server_observed(wsid));
    assert!(registry.clear_window_server_observed(wsid));
    assert!(!registry.clear_window_server_observed(wsid));
    assert!(registry.iter_window_server_ids().is_empty());
}

#[test]
fn clearing_visibility_drops_records_that_say_nothing_else() {
    let mut registry = WindowRegistry::default();
    registry.set_visible_windows(vec![WindowServerId::new(1), WindowServerId::new(2)]);
    registry.set_window_server_space(WindowServerId::new(2), Some(SpaceId::new(3)));
    assert_eq!(registry.visible_window_server_count(), 2);
    assert_eq!(raw_ids(registry.iter_visible_window_server_ids()), vec![1, 2]);

    registry.clear_visible_windows();

    assert_eq!(registry.visible_window_server_count(), 0);
    assert_eq!(raw_ids(registry.iter_window_server_ids()), vec![2]);
}

#[test]
fn assignments_are_read_back_and_removed() {
    let mut registry = WindowRegistry::default();
    let (first, second) = two_workspaces();
    let w = WindowId::new(1, 1);
    let space = SpaceId::new(1);
    let info = WindowWorkspaceInfo { space, workspace_id: first };
    assert_eq!(registry.assign_window_to_workspace(w, info), None);
    assert_eq!(
        registry.assign_window_to_workspace(
            w,
            WindowWorkspaceInfo { space, workspace_id: second }
        ),
        Some(info)
    );
    assert_eq!(registry.workspace_for_window(space, w), Some(second));
    assert_eq!(registry.workspace_for_window(SpaceId::new(2), w), None);
    assert_eq!(registry.workspaces_for_window(w), vec![second]);
    assert_eq!(registry.workspace_assignment_count(), 1);
    assert_eq!(registry.iter_workspace_assignments()[0].0, w);
    assert_eq!(registry.remove_window_assignment(w).unwrap().workspace_id, second);
    assert_eq!(registry.remove_window_assignment(w), None);
    assert!(registry.workspaces_for_window(w).is_empty());
}

#[test]
fn rule_notes_are_kept_and_cleared() {
    let mut registry = WindowRegistry::default();
    let w = WindowId::new(1, 1);
    registry.set_rule_floating(w, true);
    assert!(registry.rule_floating(w));
    registry.set_last_rule_decision(w, true);
    registry.clear_rule_floating(w);
    assert!(!registry.rule_floating(w));
    assert!(registry.last_rule_decision(w));
    registry.set_rule_floating(w, true);
    registry.clear_rule_metadata(w);
    assert!(!registry.rule_floating(w));
    assert!(!registry.last_rule_decision(w));
}

#[test]
fn removed_windows_are_forgotten() {
    let mut registry = WindowRegistry::default();
    let a = WindowId::new(1, 1);
    let b = WindowId::new(2, 1);
    registry.insert_window(a, state("a"));
    registry.insert_window(b, state("b"));
    registry.track_window_server_id(WindowServerId::new(10), a);
    registry.track_window_server_id(WindowServerId::new(11), a);
    registry.track_window_server_id(WindowServerId::new(12), b);

    registry.remove_window(a);
    assert!(!registry.contains_window(a));
    assert_eq!(raw_ids(registry.iter_window_server_ids()), vec![12]);

    registry.remove_windows_for_app(2);
    assert!(!registry.contains_window(b));
    assert!(registry.iter_window_server_ids().is_empty());
}

#[test]
fn assignments_move_with_their_space() {
    let mut registry = WindowRegistry::default();
    let (first, second) = two_workspaces();
    let a = WindowId::new(1, 1);
    let b = WindowId::new(1, 2);
    registry.assign_window_to_workspace(
        a,
        WindowWorkspaceInfo { space: SpaceId::new(1), workspace_id: first },
    );
    registry.assign_window_to_workspace(
        b,
        WindowWorkspaceInfo { space: SpaceId::new(3), workspace_id: second },
    );
    registry.remap_space(SpaceId::new(1), SpaceId::new(2));
    assert_eq!(registry.workspace_for_window(SpaceId::new(2), a), Some(first));
    assert_eq!(registry.workspace_for_window(SpaceId::new(1), a), None);
    assert_eq!(registry.workspace_for_window(SpaceId::new(3), b), Some(second));
    registry.remap_space(SpaceId::new(2), SpaceId::new(2));
    assert_eq!(registry.workspace_for_window(SpaceId::new(2), a), Some(first));
}

#[test]
fn sightings_expire() {
    let mut registry = WindowRegistry::default();
    let wsid = WindowServerId::new(4);
    let start = Instant::now();
    registry.mark_wsids_recent_at(vec![wsid], start);
    let later = start + Duration::from_millis(500);
    assert!(registry.is_wsid_recent_at(wsid, 501, later));
    assert!(!registry.is_wsid_recent_at(wsid, 500, later));
    assert!(!registry.is_wsid_recent_at(WindowServerId::new(5), 501, later));

    registry.purge_expired_at(501, later);
    assert_eq!(raw_ids(registry.iter_window_server_ids()), vec![4]);
    registry.purge_expired_at(500, later);
    assert!(registry.iter_window_server_ids().is_empty());
}

#[test]
fn sightings_are_recent_right_away() {
    let mut registry = WindowRegistry::default();
    let wsid = WindowServerId::new(4);
    registry.mark_wsids_recent(vec![wsid]);
    assert!(registry.is_wsid_recent(wsid, 3_600_000));
    assert!(!registry.is_wsid_recent(wsid, 0));
    registry.purge_expired(3_600_000);
    assert_eq!(raw_ids(registry.iter_window_server_ids()), vec![4]);
    registry.purge_expired(0);
    assert!(registry.iter_window_server_ids().is_empty());
}

#[test]
fn a_handle_gives_access_to_what_is_attached() {
    let mut handle = WindowRegistryHandle::new();
    assert!(!handle.is_attached());
    handle.attach(WindowRegistry::default());
    assert!(handle.is_attached());
    handle.get_mut().mark_window_visible(WindowServerId::new(1));
    assert!(handle.get().is_window_visible(WindowServerId::new(1)));
}
