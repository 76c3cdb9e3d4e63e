use truss::layout::{Layout, LayoutConfig, LayoutKind, LayoutRegistry};
use truss::state::rules::{
    matches_pattern, WindowRule, WindowRuleAction, WindowRuleManager, WindowRuleMatcher,
};
use truss::state::window::{Rect, Window, WindowId};
use truss::state::workspace::Workspace;
use truss::state::{State, StateError, SPECIAL_WORKSPACE_ID};

fn area() -> Rect {
    Rect::new(0, 0, 1000, 800)
}

fn ids(n: u64) -> Vec<WindowId> {
    (1..=n).map(WindowId).collect()
}

#[test]
fn new_state_has_default_workspaces() {
    let s = State::new();
    assert_eq!(s.workspaces.len(), 10);
    for id in 1..=9u32 {
        let ws = &s.workspaces[&id];
        assert_eq!(ws.name, id.to_string());
        assert_eq!(ws.layout, "master");
    }
    assert_eq!(s.workspaces[&SPECIAL_WORKSPACE_ID].name, "special");
    assert_eq!(s.active_workspace_id, 1);
    assert!(s.windows.is_empty());
    assert_eq!(s.next_window_id, 1);
}

#[test]
fn create_window_places_and_focuses_it() {
    let mut s = State::new();
    let a = s.create_window(None).unwrap();
    let b = s.create_window(None).unwrap();
    assert_eq!(a, WindowId(1));
    assert_eq!(b, WindowId(2));
    let ws = s.active_workspace();
    assert_eq!(ws.windows, vec![a, b]);
    assert_eq!(ws.focused_window, Some(a));
    assert_eq!(s.focus_history, vec![a]);
    assert_eq!(s.create_window(Some(42)), Err(StateError::WorkspaceNotFound(42)));
}

#[test]
fn state_error_messages() {
    assert_eq!(StateError::WorkspaceNotFound(7).message(), "Workspace with id 7 not found");
    assert_eq!(StateError::WindowNotFound(WindowId(5)).message(), "Window with id WindowId(5) not found");
    assert_eq!(
        StateError::InvalidOperation("nope".to_string()).message(),
        "Invalid operation: nope"
    );
}

#[test]
fn remove_window_moves_focus_to_last_remaining() {
    let mut s = State::new();
    let a = s.create_window(None).unwrap();
    let b = s.create_window(None).unwrap();
    let c = s.create_window(None).unwrap();
    assert_eq!(s.remove_window(a), Ok(()));
    let ws = s.active_workspace();
    assert_eq!(ws.windows, vec![b, c]);
    assert_eq!(ws.focused_window, Some(c));
    assert!(!s.windows.contains_key(&a.0));
    assert_eq!(s.remove_window(a), Err(StateError::WindowNotFound(a)));
}

#[test]
fn switch_workspace_records_previous() {
    let mut s = State::new();
    assert_eq!(s.switch_workspace(3), Ok(()));
    assert_eq!(s.active_workspace_id, 3);
    assert_eq!(s.previous_workspace_id, Some(1));
    assert_eq!(s.switch_workspace(3), Ok(()));
    assert_eq!(s.previous_workspace_id, Some(1));
    assert_eq!(s.switch_workspace(77), Err(StateError::WorkspaceNotFound(77)));
    assert_eq!(s.active_workspace_id, 3);
}

#[test]
fn workspace_cycling_skips_special_and_wraps() {
    let mut s = State::new();
    assert_eq!(s.next_workspace_id(), Some(2));
    assert_eq!(s.prev_workspace_id(), Some(9));
    s.switch_workspace(9).unwrap();
    assert_eq!(s.next_workspace_id(), Some(1));
    assert_eq!(s.prev_workspace_id(), Some(8));
    s.switch_workspace(SPECIAL_WORKSPACE_ID).unwrap();
    assert_eq!(s.next_workspace_id(), Some(2));
    assert_eq!(s.prev_workspace_id(), Some(9));
}

#[test]
fn focus_window_switches_workspace() {
    let mut s = State::new();
    let a = s.create_window(Some(4)).unwrap();
    assert_eq!(s.focus_window(a), Ok(()));
    assert_eq!(s.active_workspace_id, 4);
    assert_eq!(s.previous_workspace_id, Some(1));
    assert_eq!(s.active_workspace().focused_window, Some(a));
    assert_eq!(s.focus_window(WindowId(99)), Err(StateError::WindowNotFound(WindowId(99))));
}

#[test]
fn move_window_between_workspaces() {
    let mut s = State::new();
    let a = s.create_window(None).unwrap();
    let b = s.create_window(None).unwrap();
    assert_eq!(s.move_window_to_workspace(a, 2), Ok(()));
    assert_eq!(s.windows[&a.0].workspace_id, 2);
    assert_eq!(s.workspaces[&1].windows, vec![b]);
    assert_eq!(s.workspaces[&1].focused_window, Some(b));
    assert_eq!(s.workspaces[&2].windows, vec![a]);
    assert_eq!(s.workspaces[&2].focused_window, Some(a));
    assert_eq!(s.move_window_to_workspace(a, 50), Err(StateError::WorkspaceNotFound(50)));
    assert_eq!(s.move_window_to_workspace(WindowId(9), 2), Err(StateError::WindowNotFound(WindowId(9))));
}

#[test]
fn toggles_report_new_values() {
    let mut s = State::new();
    let a = s.create_window(None).unwrap();
    assert_eq!(s.toggle_floating(a), Ok(true));
    assert_eq!(s.toggle_floating(a), Ok(false));
    assert_eq!(s.toggle_pinned(a), Ok(true));
    assert_eq!(s.toggle_maximized(a), Ok(true));
    assert_eq!(s.toggle_fullscreen(WindowId(8)), Err(StateError::WindowNotFound(WindowId(8))));
}

#[test]
fn fullscreen_round_trip_restores_floating_geometry() {
    let mut s = State::new();
    let a = s.create_window(None).unwrap();
    s.toggle_floating(a).unwrap();
    s.set_window_geometry(a, Rect::new(10, 20, 300, 200)).unwrap();
    let before = s.windows[&a.0].clone();
    assert_eq!(s.toggle_fullscreen(a), Ok(true));
    assert_eq!(s.windows[&a.0].saved_geometry, Some(Rect::new(10, 20, 300, 200)));
    s.set_window_geometry(a, Rect::new(0, 0, 1000, 800)).unwrap();
    assert_eq!(s.toggle_fullscreen(a), Ok(false));
    assert_eq!(s.windows[&a.0], before);
}

#[test]
fn window_toggles_round_trip() {
    let mut w = Window::new(WindowId(3), 1);
    w.geometry = Rect::new(5, 5, 50, 50);
    let orig = w.clone();
    w.toggle_fullscreen();
    w.toggle_fullscreen();
    assert_eq!(w, orig);
    let mut f = Window::new(WindowId(4), 1);
    f.floating = true;
    f.geometry = Rect::new(1, 2, 3, 4);
    let orig = f.clone();
    f.toggle_maximized();
    f.geometry = Rect::new(0, 0, 100, 100);
    f.toggle_maximized();
    assert_eq!(f, orig);
}

#[test]
fn tiled_window_keeps_saved_geometry_after_maximize_round_trip() {
    let mut w = Window::new(WindowId(3), 1);
    w.toggle_maximized();
    w.toggle_maximized();
    assert!(!w.maximized);
    assert_eq!(w.saved_geometry, Some(Rect::new(0, 0, 0, 0)));
}

#[test]
fn last_focused_window_skips_current() {
    let mut s = State::new();
    let a = s.create_window(None).unwrap();
    let b = s.create_window(None).unwrap();
    s.focus_window(b).unwrap();
    assert_eq!(s.last_focused_window(None), Some(a));
    s.record_focus(a);
    assert_eq!(s.focus_history, vec![b, a]);
}

#[test]
fn active_workspace_for_output_prefers_occupied() {
    let mut s = State::new();
    s.workspaces.get_mut(&2).unwrap().output = Some("HDMI-1".to_string());
    s.workspaces.get_mut(&3).unwrap().output = Some("HDMI-1".to_string());
    s.create_window(Some(3)).unwrap();
    assert_eq!(s.active_workspace_for_output(Some("HDMI-1")).id, 3);
    assert_eq!(s.active_workspace_for_output(None).id, 1);
    assert_eq!(s.active_workspace_for_output(Some("DP-9")).id, 1);
}

#[test]
fn toggle_special_workspace_flips() {
    let mut s = State::new();
    assert!(s.toggle_special_workspace());
    assert!(!s.toggle_special_workspace());
}

#[test]
fn workspace_focus_cycle() {
    let mut ws = Workspace::new(1, "1".to_string(), "master".to_string());
    for id in ids(3) {
        ws.add_window(id);
    }
    assert_eq!(ws.focused_window, Some(WindowId(1)));
    assert_eq!(ws.focus_next(), Some(WindowId(2)));
    assert_eq!(ws.focus_next(), Some(WindowId(3)));
    assert_eq!(ws.focus_next(), Some(WindowId(1)));
    assert_eq!(ws.focus_prev(), Some(WindowId(3)));
    assert_eq!(ws.focus_next(), Some(WindowId(1)));
    assert!(ws.remove_window(WindowId(1)));
    assert!(!ws.remove_window(WindowId(1)));
    assert_eq!(ws.focused_window, Some(WindowId(3)));
}

#[test]
fn swap_focused_with_master() {
    let mut ws = Workspace::new(1, "1".to_string(), "master".to_string());
    for id in ids(3) {
        ws.add_window(id);
    }
    assert!(!ws.swap_focused_with_master());
    ws.focus_next();
    ws.focus_next();
    assert!(ws.swap_focused_with_master());
    assert_eq!(ws.windows, vec![WindowId(3), WindowId(2), WindowId(1)]);
    assert_eq!(ws.focused_window, Some(WindowId(3)));
}

#[test]
fn pattern_matching_rules() {
    assert!(matches_pattern("org.pulseaudio.pavucontrol", "pavucontrol"));
    assert!(matches_pattern("MPV", "mpv"));
    assert!(matches_pattern("firefox", "^(firefox|chromium)$"));
    assert!(matches_pattern("chromium-browser", "chromium|firefox"));
    assert!(!matches_pattern("kitty", "foot|alacritty"));
    assert!(!matches_pattern("kitty", " | "));
}

#[test]
fn window_rules_apply_in_order() {
    let mut mgr = WindowRuleManager::new();
    let mut act = WindowRuleAction::default();
    act.open_floating = Some(true);
    act.open_on_workspace = Some(3);
    mgr.add_rule(WindowRule::new(
        "audio".to_string(),
        WindowRuleMatcher { app_id: Some("pavucontrol".to_string()), title: None },
        act,
    ));
    let mut act2 = WindowRuleAction::default();
    act2.open_on_workspace = Some(5);
    mgr.add_rule(WindowRule::new(
        "later".to_string(),
        WindowRuleMatcher { app_id: Some("pavu".to_string()), title: None },
        act2,
    ));
    let mut w = Window::new(WindowId(1), 1);
    w.app_id = Some("pavucontrol".to_string());
    mgr.evaluate_and_apply(&mut w);
    assert!(w.floating);
    assert_eq!(w.workspace_id, 5);
    let mut other = Window::new(WindowId(2), 1);
    other.app_id = Some("kitty".to_string());
    let before = other.clone();
    mgr.evaluate_and_apply(&mut other);
    assert_eq!(other, before);
    let mut untitled = Window::new(WindowId(3), 1);
    let rule = WindowRule::new(
        "t".to_string(),
        WindowRuleMatcher { app_id: None, title: Some("x".to_string()) },
        WindowRuleAction::default(),
    );
    assert!(!rule.apply(&mut untitled));
    mgr.clear();
}

#[test]
fn master_layout_geometry() {
    let cfg = LayoutConfig::default();
    let one = LayoutKind::Master.arrange(&ids(1), area(), &cfg);
    assert_eq!(one, vec![(WindowId(1), Rect::new(8, 8, 984, 784))]);
    let two = LayoutKind::Master.arrange(&ids(2), area(), &cfg);
    assert_eq!(
        two,
        vec![
            (WindowId(1), Rect::new(8, 8, 537, 784)),
            (WindowId(2), Rect::new(553, 8, 439, 784)),
        ]
    );
    let three = LayoutKind::Master.arrange(&ids(3), area(), &cfg);
    assert_eq!(three[1], (WindowId(2), Rect::new(553, 8, 439, 388)));
    assert_eq!(three[2], (WindowId(3), Rect::new(553, 404, 439, 388)));
}

#[test]
fn monocle_and_grid_geometry() {
    let cfg = LayoutConfig::default();
    let m = LayoutKind::Monocle.arrange(&ids(2), area(), &cfg);
    assert_eq!(m[1], (WindowId(2), Rect::new(8, 8, 984, 784)));
    let g = LayoutKind::Grid.arrange(&ids(4), area(), &cfg);
    assert_eq!(
        g,
        vec![
            (WindowId(1), Rect::new(8, 8, 488, 388)),
            (WindowId(2), Rect::new(504, 8, 488, 388)),
            (WindowId(3), Rect::new(8, 404, 488, 388)),
            (WindowId(4), Rect::new(504, 404, 488, 388)),
        ]
    );
    assert!(LayoutKind::Grid.arrange(&[], area(), &cfg).is_empty());
}

#[test]
fn layout_fit_checks() {
    let cfg = LayoutConfig::default();
    assert!(LayoutKind::Master.fits(3, area(), &cfg));
    assert!(LayoutKind::Grid.fits(10, area(), &cfg));
    let huge = Rect::new(i32::MAX - 2, 0, 100, 100);
    assert!(!LayoutKind::Monocle.fits(1, huge, &cfg));
    assert!(LayoutKind::Monocle.fits(0, huge, &cfg));
}

#[test]
fn layout_registry_lookup() {
    let mut r = LayoutRegistry::new();
    assert_eq!(r.get("master"), Some(LayoutKind::Master));
    assert_eq!(r.get("monocle"), Some(LayoutKind::Monocle));
    assert_eq!(r.get("grid"), Some(LayoutKind::Grid));
    assert_eq!(r.get("spiral"), None);
    r.register("spiral".to_string(), LayoutKind::Grid);
    assert_eq!(r.get("spiral"), Some(LayoutKind::Grid));
    r.register("master".to_string(), LayoutKind::Monocle);
    assert_eq!(r.get("master"), Some(LayoutKind::Monocle));
    let mut names = r.names();
    names.sort();
    assert_eq!(names, vec!["grid", "master", "monocle", "spiral"]);
    assert!(LayoutRegistry::empty().get("master").is_none());
    assert_eq!(LayoutKind::Grid.name(), "grid");
}

#[test]
fn client_metadata_lands_on_the_window() {
    let mut s = State::new();
    let id = s.create_window(None).unwrap();
    assert!(s.set_app_id(id, Some("kitty".to_string())).is_ok());
    assert!(s.set_title(id, Some("~/src".to_string())).is_ok());
    let w = s.windows.get(&id.0).unwrap();
    assert_eq!(w.app_id.as_deref(), Some("kitty"));
    assert_eq!(w.title.as_deref(), Some("~/src"));
    assert!(s.set_title(WindowId(999), None).is_err());
}

#[test]
fn clearing_focus_keeps_windows() {
    let mut s = State::new();
    let id = s.create_window(None).unwrap();
    assert_eq!(s.active_workspace().focused_window, Some(id));
    s.clear_active_focus();
    assert_eq!(s.active_workspace().focused_window, None);
    assert_eq!(s.active_workspace().windows, vec![id]);
}

/// A user layout that stacks every window in a column of equal rows.
struct Rows;

impl Layout for Rows {
    fn name(&self) -> &str {
        "rows"
    }

    fn arrange(&self, windows: &[WindowId], usable_area: Rect, _config: &LayoutConfig) -> Vec<(WindowId, Rect)> {
        let n = windows.len().max(1) as u32;
        let h = usable_area.height / n;
        windows
            .iter()
            .enumerate()
            .map(|(i, &id)| (id, Rect::new(usable_area.x, usable_area.y + (i as u32 * h) as i32, usable_area.width, h)))
            .collect()
    }
}

#[test]
fn users_register_their_own_layouts() {
    let mut r = LayoutRegistry::new();
    assert!(!r.has_layout("columns"));
    r.register_fn("columns".to_string(), |ws: &[WindowId], a: Rect, _c: &LayoutConfig| -> Vec<(WindowId, Rect)> {
        ws.iter().map(|&id| (id, a)).collect()
    });
    assert!(r.has_layout("columns"));
    assert_eq!(r.get("columns"), None);
    let cfg = LayoutConfig::default();
    let area = Rect::new(0, 0, 100, 50);
    assert_eq!(
        r.arrange_custom("columns", &[WindowId(1), WindowId(2)], area, &cfg),
        Some(vec![(WindowId(1), area), (WindowId(2), area)])
    );
    assert_eq!(r.arrange_custom("master", &[WindowId(1)], area, &cfg), None);

    r.register_plugin("plugin:first".to_string(), |ws: &[WindowId], a: Rect, _c: &LayoutConfig| -> Vec<(WindowId, Rect)> {
        ws.iter().take(1).map(|&id| (id, a)).collect()
    });
    assert_eq!(r.arrange_custom("plugin:first", &[WindowId(3), WindowId(4)], area, &cfg), Some(vec![(WindowId(3), area)]));
    assert_eq!(r.register_layout(Box::new(Rows)), "rows");
    assert_eq!(
        r.arrange_custom("rows", &[WindowId(1), WindowId(2)], area, &cfg),
        Some(vec![(WindowId(1), Rect::new(0, 0, 100, 25)), (WindowId(2), Rect::new(0, 25, 100, 25))])
    );
    let mut names = r.names();
    names.sort();
    assert_eq!(names, vec!["columns", "grid", "master", "monocle", "plugin:first", "rows"]);

    // A user layout registered under a built-in name takes its place, and the other way round.
    r.register_custom("grid".to_string(), Box::new(Rows));
    assert_eq!(r.get("grid"), None);
    assert!(r.arrange_custom("grid", &[], area, &cfg).is_some());
    r.register("rows".to_string(), LayoutKind::Monocle);
    assert_eq!(r.get("rows"), Some(LayoutKind::Monocle));
    assert_eq!(r.arrange_custom("rows", &[], area, &cfg), None);
    let mut names = r.names();
    names.sort();
    assert_eq!(names, vec!["columns", "grid", "master", "monocle", "plugin:first", "rows"]);
}
