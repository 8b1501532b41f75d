use rift_workspaces::config::{
    AppWorkspaceRule, LayoutMode, LayoutSettings, VirtualWorkspaceSettings, WorkspaceLayoutRule,
    WorkspaceSelector,
};
use rift_workspaces::floating::FloatingWindowPositions;
use rift_workspaces::hiding::HiddenPositions;
use rift_workspaces::ids::{SpaceId, WindowId};
use rift_workspaces::manager::VirtualWorkspaceManager;
use rift_workspaces::manager_state::{
    AppRuleAssignment, AppRuleResult, WorkspaceError, MAX_WORKSPACES,
};
use rift_workspaces::rules::select_rule;
use rift_workspaces::text::{
    decimal_text, decimal_text_of_width_8, eq_ignore_ascii_case, number_of_digits, text_contains,
};
use rift_workspaces::window::Frame;
use rift_workspaces::window_registry::WindowRegistry;
use rift_workspaces::workspace::{
    default_layout_system_kind, HideCorner, LayoutSystemKind, VirtualWorkspace,
};
use rift_workspaces::workspace_id::{show_debug_text, VirtualWorkspaceId};
use std::collections::{BTreeSet, HashSet};

fn expect_managed(result: Result<AppRuleResult, WorkspaceError>) -> AppRuleAssignment {
    match result {
        Ok(AppRuleResult::Managed(decision)) => decision,
        Ok(AppRuleResult::Unmanaged) => {
            panic!("App rule unexpectedly marked window as unmanaged")
        }
        Err(e) => panic!("assign_window_with_app_info failed: {:?}", e),
    }
}

fn assign(
    manager: &mut VirtualWorkspaceManager,
    window_id: WindowId,
    space: SpaceId,
    app_id: Option<&str>,
    app_name: Option<&str>,
    window_title: Option<&str>,
    ax_role: Option<&str>,
    ax_subrole: Option<&str>,
) -> AppRuleAssignment {
    expect_managed(manager.assign_window_with_app_info(
        window_id,
        space,
        app_id,
        app_name,
        window_title,
        ax_role,
        ax_subrole,
    ))
}

fn blank_rule() -> AppWorkspaceRule {
    AppWorkspaceRule {
        app_id: None,
        workspace: None,
        floating: false,
        manage: true,
        app_name: None,
        title_regex: None,
        title_substring: None,
        ax_role: None,
        ax_subrole: None,
    }
}

fn frame_at(x: f64) -> Frame {
    Frame {
        x: x.to_bits(),
        y: 0f64.to_bits(),
        width: 10f64.to_bits(),
        height: 10f64.to_bits(),
    }
}

#[test]
fn test_virtual_workspace_creation() {
    let mut manager = VirtualWorkspaceManager::new();

    let space = SpaceId::new(1);
    assert_eq!(manager.list_workspaces(space).len(), manager.workspace_ids(space).len());

    let ws_id = manager.create_workspace(space, Some("Test Workspace".to_string())).unwrap();
    assert!(manager
        .list_workspaces(space)
        .iter()
        .any(|(id, name)| *id == ws_id && name == "Test Workspace"));

    let workspace = manager.workspace_info(space, ws_id).unwrap();
    assert_eq!(workspace.name, "Test Workspace");
}

#[test]
fn test_window_assignment() {
    let mut manager = VirtualWorkspaceManager::new();
    let space = SpaceId::new(1);
    let ws1_id = manager.create_workspace(space, Some("WS1".to_string())).unwrap();
    let ws2_id = manager.create_workspace(space, Some("WS2".to_string())).unwrap();

    let window1 = WindowId::new(1, 1);
    let window2 = WindowId::new(1, 2);

    assert!(manager.assign_window_to_workspace(space, window1, ws1_id));
    assert!(manager.assign_window_to_workspace(space, window2, ws2_id));

    assert_eq!(manager.workspace_for_window(space, window1), Some(ws1_id));
    assert_eq!(manager.workspace_for_window(space, window2), Some(ws2_id));

    let ws1 = manager.workspace_info(space, ws1_id).unwrap();
    let ws2 = manager.workspace_info(space, ws2_id).unwrap();

    assert!(ws1.contains_window(window1));
    assert!(!ws1.contains_window(window2));
    assert!(ws2.contains_window(window2));
    assert!(!ws2.contains_window(window1));
}

#[test]
fn test_active_workspace_switching() {
    let mut manager = VirtualWorkspaceManager::new();
    let space = SpaceId::new(1);
    let ws1_id = manager.create_workspace(space, Some("WS1".to_string())).unwrap();
    let ws2_id = manager.create_workspace(space, Some("WS2".to_string())).unwrap();

    assert!(manager.set_active_workspace(space, ws1_id));
    assert_eq!(manager.active_workspace(space), Some(ws1_id));

    assert!(manager.set_active_workspace(space, ws2_id));
    assert_eq!(manager.active_workspace(space), Some(ws2_id));
}

#[test]
fn test_window_visibility() {
    fn is_window_visible(
        wm: &VirtualWorkspaceManager,
        window_id: WindowId,
        space: SpaceId,
    ) -> bool {
        let window_workspace = wm.workspace_for_window(space, window_id);
        let active_workspace = wm.active_workspace(space);

        match (window_workspace, active_workspace) {
            (Some(window_ws), Some(active_ws)) => window_ws == active_ws,
            _ => true,
        }
    }
    let mut manager = VirtualWorkspaceManager::new();
    let space = SpaceId::new(1);
    let ws1_id = manager.create_workspace(space, Some("WS1".to_string())).unwrap();
    let ws2_id = manager.create_workspace(space, Some("WS2".to_string())).unwrap();
    let window1 = WindowId::new(1, 1);
    let window2 = WindowId::new(1, 2);

    manager.set_active_workspace(space, ws1_id);
    manager.assign_window_to_workspace(space, window1, ws1_id);
    manager.assign_window_to_workspace(space, window2, ws2_id);

    assert!(is_window_visible(&manager, window1, space));
    assert!(!is_window_visible(&manager, window2, space));

    manager.set_active_workspace(space, ws2_id);
    assert!(!is_window_visible(&manager, window1, space));
    assert!(is_window_visible(&manager, window2, space));
}

#[test]
fn default_workspace_setting_applied() {
    let mut settings = VirtualWorkspaceSettings::default();
    settings.default_workspace_count = 5;
    settings.default_workspace = 3;

    let mut manager =
        VirtualWorkspaceManager::new_with_config(&settings, &LayoutSettings::default());

    let space = SpaceId::new(42);
    let workspaces = manager.list_workspaces(space);
    let expected_ws = workspaces.get(settings.default_workspace).unwrap().0;

    assert_eq!(manager.active_workspace(space), Some(expected_ws));
}

#[test]
fn test_workspace_navigation() {
    let mut manager = VirtualWorkspaceManager::new();
    let space = SpaceId::new(1);
    let ws1_id = manager.create_workspace(space, Some("WS1".to_string())).unwrap();
    let ws2_id = manager.create_workspace(space, Some("WS2".to_string())).unwrap();
    let ws3_id = manager.create_workspace(space, Some("WS3".to_string())).unwrap();

    assert_eq!(manager.next_workspace(space, ws1_id, None), Some(ws2_id));
    assert_eq!(manager.next_workspace(space, ws2_id, None), Some(ws3_id));

    assert_eq!(manager.prev_workspace(space, ws2_id, None), Some(ws1_id));
    assert_eq!(manager.prev_workspace(space, ws3_id, None), Some(ws2_id));
}

#[test]
fn app_rules() {
    let space1 = SpaceId::new(1);
    let space2 = SpaceId::new(2);

    let mut settings = VirtualWorkspaceSettings::default();

    if settings.workspace_names.len() < 4 {
        while settings.workspace_names.len() < 4 {
            settings
                .workspace_names
                .push(format!("Workspace {}", settings.workspace_names.len() + 1));
        }
    }
    settings.workspace_names[1] = "coding".to_string();

    settings.app_rules = vec![
        // Floating by app_id
        AppWorkspaceRule {
            app_id: Some("com.example.test".into()),
            workspace: None,
            floating: true,
            manage: true,
            app_name: None,
            title_regex: None,
            title_substring: None,
            ax_role: None,
            ax_subrole: None,
        },
        // Match by app_name -> workspace 1
        AppWorkspaceRule {
            app_id: None,
            workspace: Some(WorkspaceSelector::Index(1)),
            floating: false,
            manage: true,
            app_name: Some("Calendar".into()),
            title_regex: None,
            title_substring: None,
            ax_role: None,
            ax_subrole: None,
        },
        // Title substring -> workspace 0
        AppWorkspaceRule {
            app_id: Some("com.example.foo".into()),
            workspace: Some(WorkspaceSelector::Index(0)),
            floating: false,
            manage: true,
            app_name: None,
            title_regex: None,
            title_substring: Some("Preferences".into()),
            ax_role: None,
            ax_subrole: None,
        },
        // Title regex -> workspace 2
        AppWorkspaceRule {
            app_id: Some("com.example.foo".into()),
            workspace: Some(WorkspaceSelector::Index(2)),
            floating: false,
            manage: true,
            app_name: None,
            title_regex: Some(r"Dialog\s+\d+".into()),
            title_substring: None,
            ax_role: None,
            ax_subrole: None,
        },
        // AX role + subrole floating
        AppWorkspaceRule {
            app_id: Some("com.example.special".into()),
            workspace: None,
            floating: true,
            manage: true,
            app_name: None,
            title_regex: None,
            title_substring: None,
            ax_role: Some("AXWindow".into()),
            ax_subrole: Some("AXDialog".into()),
        },
        // Workspace by name
        AppWorkspaceRule {
            app_id: Some("com.example.name".into()),
            workspace: Some(WorkspaceSelector::Name("coding".into())),
            floating: false,
            manage: true,
            app_name: None,
            title_regex: None,
            title_substring: None,
            ax_role: None,
            ax_subrole: None,
        },
        // Specificity tie breaking generic vs substring (generic workspace 0, specific workspace 2)
        AppWorkspaceRule {
            app_id: Some("com.example.tie".into()),
            workspace: Some(WorkspaceSelector::Index(0)),
            floating: false,
            manage: true,
            app_name: None,
            title_regex: None,
            title_substring: None,
            ax_role: None,
            ax_subrole: None,
        },
        AppWorkspaceRule {
            app_id: Some("com.example.tie".into()),
            workspace: Some(WorkspaceSelector::Index(2)),
            floating: false,
            manage: true,
            app_name: None,
            title_regex: None,
            title_substring: Some("Editor".into()),
            ax_role: None,
            ax_subrole: None,
        },
        // Reapplication: Bitwarden title becomes floating
        AppWorkspaceRule {
            app_id: Some("app.zen-browser.zen".into()),
            workspace: None,
            floating: true,
            manage: true,
            app_name: None,
            title_regex: None,
            title_substring: Some("Bitwarden".into()),
            ax_role: None,
            ax_subrole: None,
        },
        AppWorkspaceRule {
            app_id: Some("app.zen-browser.zen".into()),
            workspace: Some(WorkspaceSelector::Index(2)),
            floating: false,
            manage: true,
            app_name: None,
            title_regex: None,
            title_substring: None,
            ax_role: None,
            ax_subrole: None,
        },
        // Workspace override when specific rule matches different workspace + floating
        AppWorkspaceRule {
            app_id: Some("app.zen-browser.zen".into()),
            workspace: Some(WorkspaceSelector::Index(1)),
            floating: false,
            manage: true,
            app_name: None,
            title_regex: None,
            title_substring: None,
            ax_role: None,
            ax_subrole: None,
        },
        AppWorkspaceRule {
            app_id: Some("app.zen-browser.zen".into()),
            workspace: Some(WorkspaceSelector::Index(3)),
            floating: true,
            manage: true,
            app_name: None,
            title_regex: None,
            title_substring: Some("bitwarden".into()),
            ax_role: None,
            ax_subrole: None,
        },
    ];

    let mut manager =
        VirtualWorkspaceManager::new_with_config(&settings, &LayoutSettings::default());

    // 1. Floating persistence via app_id (case-insensitive)
    let w_float = WindowId::new(10, 1);
    let assignment = assign(
        &mut manager,
        w_float,
        space1,
        Some("COM.EXAMPLE.Test"),
        None,
        None,
        None,
        None,
    );
    assert!(assignment.floating);

    manager.remove_window(w_float);

    // After removal, reassign should still float.
    let assignment_again = assign(
        &mut manager,
        w_float,
        space1,
        Some("com.example.test"),
        None,
        None,
        None,
        None,
    );
    assert!(assignment_again.floating);

    // 2. Match by app_name
    let w_name = WindowId::new(20, 2);
    let ws_name = assign(
        &mut manager,
        w_name,
        space1,
        None,
        Some("MyCalendarApp"),
        None,
        None,
        None,
    )
    .workspace_id;
    let coding_idx = 1; // Calendar rule points to workspace index 1
    let expected_ws_name = manager.list_workspaces(space1).get(coding_idx).unwrap().0;
    assert_eq!(ws_name, expected_ws_name);

    // 3. Title substring and regex for same app
    let w_pref = WindowId::new(30, 3);
    let w_dialog = WindowId::new(30, 4);
    let ws_pref = assign(
        &mut manager,
        w_pref,
        space1,
        Some("com.example.foo"),
        None,
        Some("App Preferences"),
        None,
        None,
    )
    .workspace_id;
    let ws_dialog = assign(
        &mut manager,
        w_dialog,
        space1,
        Some("com.example.foo"),
        None,
        Some("Dialog 42"),
        None,
        None,
    )
    .workspace_id;
    let expected_pref = manager.list_workspaces(space1).get(0).unwrap().0;
    let expected_dialog = manager.list_workspaces(space1).get(2).unwrap().0;
    assert_eq!(ws_pref, expected_pref);
    assert_eq!(ws_dialog, expected_dialog);

    // 4. AX role + subrole floating
    let w_ax = WindowId::new(40, 5);
    let ax_assignment = assign(
        &mut manager,
        w_ax,
        space1,
        Some("com.example.special"),
        None,
        None,
        Some("AXWindow"),
        Some("AXDialog"),
    );
    assert!(ax_assignment.floating);

    // 5. Workspace name resolution
    let w_named = WindowId::new(50, 6);
    let ws_named = assign(
        &mut manager,
        w_named,
        space1,
        Some("com.example.name"),
        None,
        None,
        None,
        None,
    )
    .workspace_id;
    let coding_ws =
        manager.list_workspaces(space1).iter().find(|(_, n)| n == "coding").unwrap().0;
    assert_eq!(ws_named, coding_ws);

    // 6. Specificity tie-breaking (generic vs substring)
    let w_tie = WindowId::new(60, 7);
    let ws_tie = assign(
        &mut manager,
        w_tie,
        space1,
        Some("com.example.tie"),
        None,
        Some("Editor - Untitled"),
        None,
        None,
    )
    .workspace_id;
    let expected_specific = manager.list_workspaces(space1).get(2).unwrap().0; // substring rule points to 2
    assert_eq!(ws_tie, expected_specific);

    // 7. Reapplication updates existing window to floating (Bitwarden title)
    let w_bw = WindowId::new(70, 8);
    let bw_initial_assignment = assign(
        &mut manager,
        w_bw,
        space1,
        Some("app.zen-browser.zen"),
        None,
        None,
        None,
        None,
    );
    assert!(!bw_initial_assignment.floating);
    let bw_updated_assignment = assign(
        &mut manager,
        w_bw,
        space1,
        Some("app.zen-browser.zen"),
        None,
        Some("Bitwarden Login"),
        None,
        None,
    );
    assert_eq!(
        bw_initial_assignment.workspace_id,
        bw_updated_assignment.workspace_id
    );
    assert!(bw_updated_assignment.floating);

    // 8. Workspace override + floating with specific substring on different space
    let w_bw2 = WindowId::new(80, 9);
    let bw2_initial_assignment = assign(
        &mut manager,
        w_bw2,
        space2,
        Some("app.zen-browser.zen"),
        None,
        None,
        None,
        None,
    );
    assert!(!bw2_initial_assignment.floating);
    let bw2_updated_assignment = assign(
        &mut manager,
        w_bw2,
        space2,
        Some("app.zen-browser.zen"),
        None,
        Some("Bitwarden Vault"),
        None,
        None,
    );
    // The generic rule with workspace index 1 should apply first.
    // When title matches, the specific rule (index 3, floating) should override.
    let expected_initial = manager.list_workspaces(space2).get(2).unwrap().0; // workspace index 1
    let expected_updated = manager.list_workspaces(space2).get(3).unwrap().0; // workspace index 3
    assert_eq!(bw2_initial_assignment.workspace_id, expected_initial);
    // Workspace may remain same depending on rule ordering; ensure floating toggled and workspace is one of the target candidates.
    assert!(
        bw2_updated_assignment.workspace_id == expected_initial
            || bw2_updated_assignment.workspace_id == expected_updated
    );
    assert!(bw2_updated_assignment.floating);
}

#[test]
fn workspaces_start_with_numbered_names() {
    let mut manager = VirtualWorkspaceManager::new();
    let space = SpaceId::new(1);
    let names: Vec<String> =
        manager.list_workspaces(space).into_iter().map(|(_, name)| name).collect();
    assert_eq!(names, vec!["Workspace 1", "Workspace 2", "Workspace 3", "Workspace 4"]);
    // Giving a space its workspaces happens once.
    assert_eq!(manager.list_workspaces(space).len(), 4);
    assert_eq!(manager.initialized_spaces(), vec![space]);

    let id = manager.create_workspace(space, None).unwrap();
    assert_eq!(manager.workspace_info(space, id).unwrap().name, "Workspace 1");
    let id = manager.create_workspace(space, None).unwrap();
    assert_eq!(manager.workspace_info(space, id).unwrap().name, "Workspace 2");
}

#[test]
fn a_space_takes_no_more_than_the_limit() {
    let mut manager = VirtualWorkspaceManager::new();
    let space = SpaceId::new(17);
    manager.list_workspaces(space);
    for _ in 4..MAX_WORKSPACES {
        assert!(manager.create_workspace(space, None).is_ok());
    }
    match manager.create_workspace(space, None) {
        Err(WorkspaceError::InconsistentState(text)) => {
            assert_eq!(text, "Maximum workspace limit (32) reached for space SpaceId(17)");
        }
        _ => panic!("the limit was not enforced"),
    }
    assert_eq!(manager.workspace_ids(space).len(), 32);
}

#[test]
fn configured_counts_are_held_to_the_limits() {
    let mut settings = VirtualWorkspaceSettings::default();
    settings.default_workspace_count = 0;
    settings.default_workspace = 9;
    let mut manager =
        VirtualWorkspaceManager::new_with_config(&settings, &LayoutSettings::default());
    assert_eq!(manager.list_workspaces(SpaceId::new(1)).len(), 1);
    settings.default_workspace_count = 1000;
    let mut manager =
        VirtualWorkspaceManager::new_with_config(&settings, &LayoutSettings::default());
    assert_eq!(manager.list_workspaces(SpaceId::new(1)).len(), 32);
    assert_eq!(manager.active_workspace_idx(SpaceId::new(1)), Some(9));
}

#[test]
fn foreign_workspaces_are_refused() {
    let mut manager = VirtualWorkspaceManager::new();
    let here = SpaceId::new(1);
    let there = SpaceId::new(2);
    let foreign = manager.list_workspaces(there)[0].0;
    manager.list_workspaces(here);
    let w = WindowId::new(1, 1);
    assert!(!manager.assign_window_to_workspace(here, w, foreign));
    assert_eq!(manager.workspace_for_window_any(w), None);
    let active = manager.active_workspace(here);
    assert!(!manager.set_active_workspace(here, foreign));
    assert_eq!(manager.active_workspace(here), active);
    assert!(!manager.rename_workspace(here, foreign, "x".to_string()));
    assert!(manager.workspace_info(here, foreign).is_none());
    assert!(manager.workspace_windows(here, foreign).is_empty());
}

#[test]
fn moving_a_window_leaves_it_in_one_workspace() {
    let mut manager = VirtualWorkspaceManager::new();
    let a = SpaceId::new(1);
    let b = SpaceId::new(2);
    let in_a = manager.list_workspaces(a)[0].0;
    let in_b = manager.list_workspaces(b)[3].0;
    let w = WindowId::new(1, 1);
    assert!(manager.assign_window_to_workspace(a, w, in_a));
    manager.set_last_focused_window(a, in_a, Some(w));
    assert_eq!(manager.last_focused_window(a, in_a), Some(w));
    assert!(manager.assign_window_to_workspace(b, w, in_b));
    assert!(!manager.workspace_info(a, in_a).unwrap().contains_window(w));
    assert_eq!(manager.last_focused_window(a, in_a), None);
    assert!(manager.workspace_info(b, in_b).unwrap().contains_window(w));
    assert!(manager.audit_membership().is_empty());
    assert_eq!(manager.workspace_info_for_window_any(w).unwrap().space, b);
    assert_eq!(manager.workspaces_for_window(w), vec![in_b]);
}

#[test]
fn audit_finds_a_window_in_two_workspaces() {
    let mut manager = VirtualWorkspaceManager::new();
    let space = SpaceId::new(1);
    let listed = manager.list_workspaces(space);
    let w = WindowId::new(1, 1);
    assert!(manager.assign_window_to_workspace(space, w, listed[0].0));
    // The registry forgets the window; the workspace still has it.
    manager.window_registry_mut().get_mut().remove_window(w);
    assert!(manager.assign_window_to_workspace(space, w, listed[1].0));

    let found = manager.audit_membership();
    assert_eq!(found.len(), 1);
    assert_eq!(found[0].window_id, w);
    assert_eq!(found[0].locations.len(), 2);
    assert_eq!(found[0].registry.unwrap().workspace_id, listed[1].0);

    // A window that the registry does not know is taken out of every workspace.
    manager.window_registry_mut().get_mut().remove_window(w);
    manager.remove_window(w);
    assert!(manager.audit_membership().is_empty());
    assert!(manager.workspace_windows(space, listed[0].0).is_empty());
    assert!(manager.workspace_windows(space, listed[1].0).is_empty());
}

#[test]
fn removing_a_window_undoes_its_assignment() {
    let mut manager = VirtualWorkspaceManager::new();
    let space = SpaceId::new(1);
    let id = manager.list_workspaces(space)[0].0;
    let w = WindowId::new(1, 1);
    let other = WindowId::new(1, 2);
    manager.assign_window_to_workspace(space, other, id);
    manager.assign_window_to_workspace(space, w, id);
    manager.remove_window(w);
    assert_eq!(manager.workspace_for_window(space, w), None);
    assert_eq!(manager.workspace_windows(space, id), vec![other]);
}

#[test]
fn windows_of_an_app_are_removed_together() {
    let mut manager = VirtualWorkspaceManager::new();
    let space = SpaceId::new(1);
    let listed = manager.list_workspaces(space);
    manager.assign_window_to_workspace(space, WindowId::new(1, 1), listed[0].0);
    manager.assign_window_to_workspace(space, WindowId::new(1, 2), listed[1].0);
    manager.assign_window_to_workspace(space, WindowId::new(2, 3), listed[1].0);
    manager.remove_windows_for_app(1);
    assert!(manager.workspace_windows(space, listed[0].0).is_empty());
    assert_eq!(manager.workspace_windows(space, listed[1].0), vec![WindowId::new(2, 3)]);
    assert_eq!(manager.get_stats().total_windows, 1);
}

#[test]
fn windows_of_active_and_inactive_workspaces() {
    let mut manager = VirtualWorkspaceManager::new();
    let space = SpaceId::new(1);
    let listed = manager.list_workspaces(space);
    let shown = WindowId::new(1, 1);
    let hidden = WindowId::new(1, 2);
    manager.assign_window_to_workspace(space, shown, listed[0].0);
    manager.assign_window_to_workspace(space, hidden, listed[2].0);
    assert_eq!(manager.windows_in_active_workspace(space), vec![shown]);
    assert_eq!(manager.windows_in_inactive_workspaces(space), vec![hidden]);
    assert!(manager.is_window_in_active_workspace(space, shown));
    assert!(!manager.is_window_in_active_workspace(space, hidden));
    assert!(manager.is_window_in_active_workspace(space, WindowId::new(9, 9)));
    assert!(manager.windows_in_active_workspace(SpaceId::new(5)).is_empty());
}

#[test]
fn windows_are_found_by_index() {
    let mut manager = VirtualWorkspaceManager::new();
    let space = SpaceId::new(1);
    let listed = manager.list_workspaces(space);
    let w = WindowId::new(1, 7);
    manager.assign_window_to_workspace(space, w, listed[1].0);
    assert_eq!(manager.find_window_by_idx(space, 7), Some(w));
    assert_eq!(manager.find_window_by_idx(SpaceId::new(2), 7), None);
    assert_eq!(manager.find_window_in_workspace_by_idx(space, listed[1].0, 7), Some(w));
    assert_eq!(manager.find_window_in_workspace_by_idx(space, listed[0].0, 7), None);
    assert_eq!(manager.find_window_in_workspace_by_idx(SpaceId::new(2), listed[1].0, 7), None);
}

#[test]
fn windows_of_a_workspace_come_by_index() {
    let mut manager = VirtualWorkspaceManager::new();
    let space = SpaceId::new(1);
    let id = manager.list_workspaces(space)[0].0;
    for idx in [5u32, 1, 9, 3] {
        manager.assign_window_to_workspace(space, WindowId::new(1, idx), id);
    }
    let order: Vec<u32> =
        manager.workspace_windows(space, id).into_iter().map(|w| w.idx).collect();
    assert_eq!(order, vec![1, 3, 5, 9]);
}

#[test]
fn steps_wrap_around_and_lead_back() {
    let mut manager = VirtualWorkspaceManager::new();
    let space = SpaceId::new(1);
    let listed = manager.list_workspaces(space);
    let first = listed[0].0;
    let last = listed[3].0;
    assert_eq!(manager.next_workspace(space, last, None), Some(first));
    assert_eq!(manager.prev_workspace(space, first, Some(false)), Some(last));
    let next = manager.next_workspace(space, first, None).unwrap();
    assert_eq!(manager.prev_workspace(space, next, None), Some(first));
    assert_eq!(manager.next_workspace(SpaceId::new(8), first, None), None);
}

#[test]
fn steps_can_skip_empty_workspaces() {
    let mut manager = VirtualWorkspaceManager::new();
    let space = SpaceId::new(1);
    let listed = manager.list_workspaces(space);
    assert_eq!(manager.next_workspace(space, listed[0].0, Some(true)), None);
    manager.assign_window_to_workspace(space, WindowId::new(1, 1), listed[1].0);
    manager.assign_window_to_workspace(space, WindowId::new(1, 2), listed[3].0);
    // From one with windows.
    assert_eq!(manager.next_workspace(space, listed[1].0, Some(true)), Some(listed[3].0));
    assert_eq!(manager.next_workspace(space, listed[3].0, Some(true)), Some(listed[1].0));
    // From an empty one.
    assert_eq!(manager.next_workspace(space, listed[2].0, Some(true)), Some(listed[3].0));
    assert_eq!(manager.prev_workspace(space, listed[2].0, Some(true)), Some(listed[1].0));
    assert_eq!(manager.prev_workspace(space, listed[0].0, Some(true)), Some(listed[3].0));
}

#[test]
fn switching_remembers_the_last_workspace() {
    let mut manager = VirtualWorkspaceManager::new();
    let space = SpaceId::new(1);
    let listed = manager.list_workspaces(space);
    let elsewhere = manager.list_workspaces(SpaceId::new(2))[0].0;
    assert_eq!(manager.last_workspace(space), None);
    manager.set_active_workspace(space, listed[2].0);
    assert_eq!(manager.last_workspace(space), Some(listed[0].0));
    assert_eq!(manager.active_workspace_idx(space), Some(2));
    assert_eq!(manager.active_workspace(SpaceId::new(2)), Some(elsewhere));
    assert_eq!(manager.active_workspace_idx(SpaceId::new(3)), None);
    assert!(!manager.workspace_auto_back_and_forth());
}

#[test]
fn a_remapped_space_keeps_its_workspaces() {
    let mut manager = VirtualWorkspaceManager::new();
    let old = SpaceId::new(1);
    let new = SpaceId::new(2);
    let kept = manager.list_workspaces(old);
    let replaced = manager.list_workspaces(new);
    let w = WindowId::new(1, 1);
    manager.assign_window_to_workspace(old, w, kept[1].0);
    manager.set_active_workspace(old, kept[1].0);
    manager.store_floating_position(old, kept[1].0, w, frame_at(3.0));
    manager.store_floating_position(new, replaced[0].0, w, frame_at(4.0));

    manager.remap_space(old, new);

    assert!(manager.workspace_ids(old).is_empty());
    let ids: Vec<_> = kept.iter().map(|(id, _)| *id).collect();
    assert_eq!(manager.workspace_ids(new), ids);
    assert_eq!(manager.active_workspace(new), Some(kept[1].0));
    assert_eq!(manager.last_workspace(new), Some(kept[0].0));
    assert_eq!(manager.active_workspace(old), None);
    assert_eq!(manager.workspace_for_window(new, w), Some(kept[1].0));
    assert!(manager.workspace_info(new, replaced[0].0).is_none());
    assert_eq!(manager.get_stats().total_workspaces, 4);
    assert_eq!(manager.get_floating_position(new, kept[1].0, w), Some(frame_at(3.0)));
    assert_eq!(manager.get_floating_position(old, kept[1].0, w), None);
    assert_eq!(manager.get_floating_position(new, replaced[0].0, w), None);

    // Nothing happens for a space without workspaces or for the same space.
    manager.remap_space(SpaceId::new(9), old);
    manager.remap_space(new, new);
    assert_eq!(manager.workspace_ids(new).len(), 4);
}

#[test]
fn new_settings_add_the_missing_workspaces() {
    let mut settings = VirtualWorkspaceSettings::default();
    settings.default_workspace_count = 2;
    let mut manager =
        VirtualWorkspaceManager::new_with_config(&settings, &LayoutSettings::default());
    let space = SpaceId::new(1);
    let before = manager.list_workspaces(space);
    settings.default_workspace_count = 5;
    settings.workspace_names =
        vec!["a".to_string(), "b".to_string(), "c".to_string()];
    settings.workspace_rules = vec![WorkspaceLayoutRule {
        workspace: WorkspaceSelector::Name("c".to_string()),
        layout: LayoutMode::Bsp,
    }];
    settings.workspace_auto_back_and_forth = true;

    manager.update_settings(&settings, &LayoutSettings::default());

    let after = manager.list_workspaces(space);
    let names: Vec<&str> = after.iter().map(|(_, name)| name.as_str()).collect();
    assert_eq!(names, vec!["Workspace 1", "Workspace 2", "c", "Workspace 1", "Workspace 2"]);
    assert_eq!(after[0].0, before[0].0);
    assert_eq!(manager.workspace_info(space, after[2].0).unwrap().layout_mode(), LayoutMode::Bsp);
    assert!(manager.workspace_auto_back_and_forth());

    // Fewer are never taken away.
    settings.default_workspace_count = 1;
    manager.update_settings(&settings, &LayoutSettings::default());
    assert_eq!(manager.list_workspaces(space).len(), 5);
}

#[test]
fn the_last_layout_rule_wins() {
    let mut settings = VirtualWorkspaceSettings::default();
    settings.workspace_rules = vec![
        WorkspaceLayoutRule { workspace: WorkspaceSelector::Index(1), layout: LayoutMode::Bsp },
        WorkspaceLayoutRule {
            workspace: WorkspaceSelector::Name("Workspace 2".to_string()),
            layout: LayoutMode::Stack,
        },
    ];
    let mut layout = LayoutSettings::default();
    layout.mode = LayoutMode::MasterStack;
    let manager = VirtualWorkspaceManager::new_with_config(&settings, &layout);
    assert_eq!(
        manager.desired_layout_mode_for_workspace(1, "Workspace 2"),
        LayoutMode::Stack
    );
    assert_eq!(manager.desired_layout_mode_for_workspace(1, "other"), LayoutMode::Bsp);
    assert_eq!(manager.desired_layout_mode_for_workspace(0, "other"), LayoutMode::MasterStack);
}

#[test]
fn layouts_follow_mode_and_settings() {
    let settings = LayoutSettings::default();
    assert_eq!(default_layout_system_kind(), LayoutSystemKind::Traditional);
    assert_eq!(
        VirtualWorkspace::create_layout_system(LayoutMode::Stack, &settings),
        LayoutSystemKind::Stack(settings.stack.default_orientation)
    );
    assert_eq!(
        VirtualWorkspace::create_layout_system(LayoutMode::MasterStack, &settings),
        LayoutSystemKind::MasterStack(settings.master_stack)
    );
    assert_eq!(
        VirtualWorkspace::create_layout_system(LayoutMode::Scrolling, &settings),
        LayoutSystemKind::Scrolling(settings.scrolling)
    );
    assert_eq!(f64::from_bits(settings.master_stack.master_ratio), 0.6);
    assert_eq!(f64::from_bits(settings.scrolling.column_width_ratio), 0.7);
    let mut workspace =
        VirtualWorkspace::new("w".to_string(), SpaceId::new(1), LayoutMode::Bsp, &settings);
    assert_eq!(*workspace.tree(), LayoutSystemKind::Bsp);
    *workspace.tree_mut() = LayoutSystemKind::Traditional;
    assert_eq!(*workspace.tree(), LayoutSystemKind::Traditional);
}

#[test]
fn floating_positions_are_stored_and_removed() {
    let mut manager = VirtualWorkspaceManager::new();
    let space = SpaceId::new(1);
    let listed = manager.list_workspaces(space);
    let id = listed[0].0;
    let w = WindowId::new(1, 1);
    let v = WindowId::new(2, 1);
    manager.store_floating_position_if_absent(space, id, w, frame_at(1.0));
    manager.store_floating_position_if_absent(space, id, w, frame_at(2.0));
    assert_eq!(manager.get_floating_position(space, id, w), Some(frame_at(1.0)));
    manager.store_floating_position(space, id, w, frame_at(3.0));
    assert_eq!(manager.get_floating_position(space, id, w), Some(frame_at(3.0)));
    assert_eq!(manager.get_floating_position(space, listed[1].0, w), None);

    manager.store_current_floating_positions(
        space,
        &vec![(v, frame_at(5.0)), (v, frame_at(6.0))],
    );
    assert_eq!(manager.get_floating_position(space, id, v), Some(frame_at(6.0)));
    assert_eq!(manager.get_workspace_floating_positions(space, id).len(), 2);

    manager.remove_floating_position(w);
    assert_eq!(manager.get_floating_position(space, id, w), None);
    manager.remove_app_floating_positions(2);
    assert!(manager.get_workspace_floating_positions(space, id).is_empty());
}

#[test]
fn renaming_and_stats() {
    let mut manager = VirtualWorkspaceManager::new();
    let space = SpaceId::new(1);
    let id = manager.list_workspaces(space)[0].0;
    assert!(manager.rename_workspace(space, id, "mail".to_string()));
    assert_eq!(manager.list_workspaces(space)[0].1, "mail");
    manager.assign_window_to_workspace(space, WindowId::new(1, 1), id);
    let stats = manager.get_stats();
    assert_eq!(stats.total_workspaces, 4);
    assert_eq!(stats.total_windows, 1);
    assert_eq!(stats.active_spaces, 1);
    let counts: Vec<usize> = stats
        .workspace_window_counts
        .iter()
        .filter(|(other, _)| *other == id)
        .map(|(_, n)| *n)
        .collect();
    assert_eq!(counts, vec![1]);
}

#[test]
fn windows_without_a_rule_go_to_the_active_workspace_and_stay() {
    let mut manager = VirtualWorkspaceManager::new();
    let space = SpaceId::new(1);
    let w = WindowId::new(1, 1);
    let id = manager.auto_assign_window(w, space).unwrap();
    assert_eq!(manager.active_workspace(space), Some(id));
    let listed = manager.list_workspaces(space);
    manager.set_active_workspace(space, listed[3].0);
    let again = assign(&mut manager, w, space, None, None, None, None, None);
    assert_eq!(again.workspace_id, id);
    assert!(!again.floating);
    assert!(!again.prev_rule_decision);
    manager.set_last_rule_decision(space, w, true);
    let again = assign(&mut manager, w, space, None, None, None, None, None);
    assert!(again.prev_rule_decision);
}

#[test]
fn rules_can_leave_windows_unmanaged() {
    let mut rule = blank_rule();
    rule.app_id = Some("com.example.tool".to_string());
    rule.manage = false;
    let mut manager =
        VirtualWorkspaceManager::new_with_rules(vec![rule], LayoutSettings::default());
    let result = manager.assign_window_with_app_info(
        WindowId::new(1, 1),
        SpaceId::new(1),
        Some("com.example.tool"),
        None,
        None,
        None,
        None,
    );
    assert!(matches!(result, Ok(AppRuleResult::Unmanaged)));
    assert_eq!(manager.workspace_for_window_any(WindowId::new(1, 1)), None);
}

#[test]
fn unresolved_targets_fall_back_to_the_default_workspace() {
    let mut by_index = blank_rule();
    by_index.app_id = Some("a".to_string());
    by_index.workspace = Some(WorkspaceSelector::Index(99));
    let mut by_name = blank_rule();
    by_name.app_id = Some("b".to_string());
    by_name.workspace = Some(WorkspaceSelector::Name("nowhere".to_string()));
    let mut manager = VirtualWorkspaceManager::new_with_rules(
        vec![by_index, by_name],
        LayoutSettings::default(),
    );
    let space = SpaceId::new(1);
    let active = manager.list_workspaces(space)[0].0;
    let first = assign(&mut manager, WindowId::new(1, 1), space, Some("a"), None, None, None, None);
    assert_eq!(first.workspace_id, active);
    let second =
        assign(&mut manager, WindowId::new(1, 2), space, Some("B"), None, None, None, None);
    assert_eq!(second.workspace_id, active);
}

#[test]
fn patterns_ignore_case_and_invalid_ones_match_nothing() {
    let mut valid = blank_rule();
    valid.title_regex = Some("^fo+$".to_string());
    valid.floating = true;
    let mut invalid = blank_rule();
    invalid.title_regex = Some("(".to_string());
    invalid.floating = true;
    let mut manager = VirtualWorkspaceManager::new_with_rules(
        vec![invalid, valid],
        LayoutSettings::default(),
    );
    let space = SpaceId::new(1);
    let hit =
        assign(&mut manager, WindowId::new(1, 1), space, None, None, Some("FOO"), None, None);
    assert!(hit.floating);
    let miss =
        assign(&mut manager, WindowId::new(1, 2), space, None, None, Some("bar ("), None, None);
    assert!(!miss.floating);
}

#[test]
fn conditions_that_are_empty_or_absent() {
    // An empty title condition is never met.
    let mut rule = blank_rule();
    rule.title_substring = Some("".to_string());
    rule.floating = true;
    let mut manager =
        VirtualWorkspaceManager::new_with_rules(vec![rule], LayoutSettings::default());
    let space = SpaceId::new(1);
    let w = WindowId::new(1, 1);
    assert!(!assign(&mut manager, w, space, None, None, Some("x"), None, None).floating);
    // Names are compared in lower case, either in the other.
    let mut rule = blank_rule();
    rule.app_name = Some("Visual STUDIO Code".to_string());
    rule.floating = true;
    let mut manager =
        VirtualWorkspaceManager::new_with_rules(vec![rule], LayoutSettings::default());
    assert!(assign(&mut manager, w, space, None, Some("studio"), None, None, None).floating);
    assert!(!assign(&mut manager, w, space, None, None, None, None, None).floating);
}

#[test]
fn titles_are_compared_in_lower_case() {
    let mut rule = blank_rule();
    rule.title_substring = Some("ÄRGER".to_string());
    rule.floating = true;
    let mut manager =
        VirtualWorkspaceManager::new_with_rules(vec![rule], LayoutSettings::default());
    let space = SpaceId::new(1);
    let hit =
        assign(&mut manager, WindowId::new(1, 1), space, None, None, Some("Mein ärger"), None, None);
    assert!(hit.floating);
}

#[test]
fn rivals_are_settled_before_the_most_specific_rule() {
    let mut lone = blank_rule();
    lone.app_name = Some("x".to_string());
    lone.title_substring = Some("y".to_string());
    lone.ax_role = Some("r".to_string());
    let mut first = blank_rule();
    first.app_id = Some("app".to_string());
    let mut second = blank_rule();
    second.app_id = Some("app".to_string());
    second.title_substring = Some("y".to_string());
    let rules = vec![lone, first, second];
    assert_eq!(select_rule(&rules, &vec![true, true, true]), Some(2));
    assert_eq!(select_rule(&rules, &vec![true, true, false]), Some(0));
    assert_eq!(select_rule(&rules, &vec![false, true, false]), Some(1));
    assert_eq!(select_rule(&rules, &vec![false, false, false]), None);
    // On a tie the earlier rule is applied.
    let rules = vec![blank_rule(), blank_rule()];
    assert_eq!(select_rule(&rules, &vec![true, true]), Some(0));
}

#[test]
fn a_registry_can_be_attached() {
    let mut manager = VirtualWorkspaceManager::new();
    let space = SpaceId::new(1);
    let w = WindowId::new(1, 1);
    manager.auto_assign_window(w, space).unwrap();
    manager.attach_window_registry(WindowRegistry::default());
    assert!(manager.window_registry().is_attached());
    assert_eq!(manager.workspace_for_window_any(w), None);
}

#[test]
fn identifiers_are_shown_in_eight_places() {
    let mut manager = VirtualWorkspaceManager::new();
    let listed = manager.list_workspaces(SpaceId::new(1));
    // The first slot is number one, in its first version.
    assert_eq!(listed[0].0.display(), "00000011");
    assert_eq!(listed[1].0.display(), "00000021");
    assert_eq!(show_debug_text("Id(12v345)".to_string()), "00012345");
    assert_eq!(show_debug_text("Id(123456789v1)".to_string()), "1234567891");
    assert_eq!(show_debug_text("Id(null)".to_string()), "Id(null)");
    let long = "Id(4294967295v4294967295)".to_string();
    assert_eq!(show_debug_text(long.clone()), long);
}

#[test]
fn numbers_and_texts() {
    assert_eq!(decimal_text(0), "0");
    assert_eq!(decimal_text(18446744073709551615), "18446744073709551615");
    assert_eq!(decimal_text_of_width_8(42), "00000042");
    assert_eq!(number_of_digits("a1b2"), Some(12));
    assert_eq!(number_of_digits("18446744073709551616"), None);
    assert_eq!(number_of_digits("none"), None);
    assert!(eq_ignore_ascii_case("aZé", "AzÉ") == false);
    assert!(eq_ignore_ascii_case("aZ-9", "Az-9"));
    assert!(!eq_ignore_ascii_case("a", "ab"));
    assert!(text_contains("hello", "ll"));
    assert!(text_contains("hello", ""));
    assert!(!text_contains("he", "hello"));
}

#[test]
fn hidden_corners() {
    assert_eq!(HideCorner::default(), HideCorner::BottomRight);
    assert_eq!(HideCorner::BottomLeft.opposite(), HideCorner::BottomRight);
    assert_eq!(HideCorner::BottomLeft.opposite().opposite(), HideCorner::BottomLeft);
    assert_eq!(HideCorner::BottomLeft.offset_for(None), (1, -1));
    assert_eq!(HideCorner::BottomRight.offset_for(Some("com.example")), (1, 1));
    assert_eq!(HideCorner::BottomRight.offset_for(Some("us.zoom.xos")), (0, 0));

    let both = HiddenPositions {
        primary_anchored: true,
        fallback_anchored: true,
        overlaps_differ: true,
        primary_overlaps_less: false,
        primary_overlaps_no_more: false,
        primary_anchor_no_more: true,
    };
    assert!(!both.is_primary_taken());
    assert!(HiddenPositions { overlaps_differ: false, ..both }.is_primary_taken());
    assert!(HiddenPositions { fallback_anchored: false, ..both }.is_primary_taken());
    assert!(!HiddenPositions { primary_anchored: false, ..both }.is_primary_taken());
    let neither = HiddenPositions { primary_anchored: false, fallback_anchored: false, ..both };
    assert!(!neither.is_primary_taken());
    assert!(HiddenPositions { primary_overlaps_no_more: true, ..neither }.is_primary_taken());
}

#[test]
fn there_is_room_for_more_workspaces() {
    let mut manager = VirtualWorkspaceManager::new();
    let space = SpaceId::new(1);
    assert!(manager.has_room(space));
    manager.list_workspaces(space);
    assert!(manager.has_room(space));
    assert!(manager.has_spare_room(0));
    assert!(manager.has_spare_room(MAX_WORKSPACES));
    // The counter that names workspaces would run over.
    assert!(!manager.has_spare_room(usize::MAX));
}

#[test]
fn errors_are_told_apart() {
    let mut manager = VirtualWorkspaceManager::new();
    let ids = manager.list_workspaces(SpaceId::new(1));
    let errors = vec![
        WorkspaceError::NoWorkspacesAvailable,
        WorkspaceError::AssignmentFailed,
        WorkspaceError::InvalidWorkspaceId(ids[0].0),
        WorkspaceError::InvalidWorkspaceId(ids[1].0),
        WorkspaceError::InvalidWorkspaceIndex(1),
        WorkspaceError::InvalidWorkspaceIndex(2),
        WorkspaceError::InconsistentState("a".to_string()),
        WorkspaceError::InconsistentState("b".to_string()),
    ];
    for (i, a) in errors.iter().enumerate() {
        for (j, b) in errors.iter().enumerate() {
            assert_eq!(a == b, i == j);
        }
        assert_eq!(a.clone(), *a);
    }
}

#[test]
fn copied_positions_are_independent() {
    let window = WindowId::new(1, 1);
    let mut positions = FloatingWindowPositions::default();
    positions.store_position(window, frame_at(5.0));
    let copy = positions.clone();
    assert_eq!(positions.remove_position(window), Some(frame_at(5.0)));
    assert_eq!(positions.get_position(window), None);
    assert_eq!(copy.get_position(window), Some(frame_at(5.0)));
}

#[test]
fn identifiers_have_the_standard_traits() {
    let mut manager = VirtualWorkspaceManager::new();
    let ids: Vec<VirtualWorkspaceId> =
        manager.list_workspaces(SpaceId::new(1)).into_iter().map(|entry| entry.0).collect();
    assert_eq!(format!("{:?}", ids[0]), "VirtualWorkspaceId(1v1)");
    assert_eq!(format!("{:?}", ids[1]), "VirtualWorkspaceId(2v1)");
    assert_eq!(ids[0].display(), "00000011");
    assert_eq!(format!("{:?}", VirtualWorkspaceId::default()), "VirtualWorkspaceId(null)");
    assert_eq!(VirtualWorkspaceId::default().display(), "VirtualWorkspaceId(null)");
    assert!(manager.workspace_info(SpaceId::new(1), VirtualWorkspaceId::default()).is_none());

    let hashed: HashSet<VirtualWorkspaceId> = ids.iter().copied().collect();
    let ordered: BTreeSet<VirtualWorkspaceId> = ids.iter().copied().collect();
    assert_eq!(hashed.len(), 4);
    assert_eq!(ordered.len(), 4);
    assert!(hashed.contains(&ids[2]) && ordered.contains(&ids[3]));
}

#[test]
fn stats_can_be_copied() {
    let mut manager = VirtualWorkspaceManager::new();
    manager.list_workspaces(SpaceId::new(1));
    let stats = manager.get_stats();
    let copy = stats.clone();
    assert_eq!(copy.total_workspaces, 4);
    assert_eq!(copy.active_spaces, 1);
    assert_eq!(copy.total_windows, 0);
    assert_eq!(copy.workspace_window_counts, stats.workspace_window_counts);
}

#[test]
fn new_settings_leave_what_there_is_unchanged() {
    let space = SpaceId::new(1);
    let window = WindowId::new(1, 1);
    let mut manager = VirtualWorkspaceManager::new();
    let before = manager.list_workspaces(space);
    assert!(manager.assign_window_to_workspace(space, window, before[1].0));

    let mut settings = VirtualWorkspaceSettings::default();
    settings.default_workspace_count = 6;
    let mut layout = LayoutSettings::default();
    layout.mode = LayoutMode::Bsp;
    manager.update_settings(&settings, &layout);

    let after = manager.list_workspaces(space);
    assert_eq!(after.len(), 6);
    assert_eq!(after[..4], before[..]);
    assert_eq!(manager.workspace_windows(space, after[1].0), vec![window]);
    for (i, entry) in after.iter().enumerate() {
        let workspace = manager.workspace_info(space, entry.0).unwrap();
        if i < 4 {
            assert_eq!(workspace.layout_mode(), LayoutMode::Traditional);
        } else {
            assert_eq!(workspace.layout_mode(), LayoutMode::Bsp);
            assert_eq!(workspace.window_count(), 0);
        }
    }

    settings.default_workspace_count = 2;
    manager.update_settings(&settings, &layout);
    assert_eq!(manager.list_workspaces(space).len(), 6);
}

#[test]
fn a_window_is_located_in_its_workspace() {
    let space = SpaceId::new(1);
    let window = WindowId::new(1, 1);
    let mut manager = VirtualWorkspaceManager::new();
    let ids = manager.list_workspaces(space);
    assert!(manager.locations_of(window).is_empty());
    assert!(manager.assign_window_to_workspace(space, window, ids[2].0));
    assert_eq!(manager.locations_of(window), vec![(ids[2].0, space)]);
}

#[test]
fn windows_are_assigned_by_default_to_the_active_workspace() {
    let space = SpaceId::new(1);
    let window = WindowId::new(1, 1);
    let mut manager = VirtualWorkspaceManager::new();
    let ids = manager.list_workspaces(space);
    assert!(manager.assign_window_to_workspace(space, window, ids[0].0));
    assert!(manager.set_active_workspace(space, ids[2].0));
    manager.set_last_rule_decision(space, window, true);
    assert_eq!(manager.locations_of(window), vec![(ids[0].0, space)]);

    assert_eq!(manager.auto_assign_window(window, space), Ok(ids[2].0));
    assert_eq!(manager.locations_of(window), vec![(ids[2].0, space)]);
    assert_eq!(manager.workspace_for_window(space, window), Some(ids[2].0));
    assert!(manager.window_registry().get().last_rule_decision(window));
    assert!(!manager.window_registry().get().rule_floating(window));
    assert!(manager.audit_membership().is_empty());
}
