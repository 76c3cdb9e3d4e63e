use truss::dispatch::{Command, DispatchError, DispatchResult, Direction, Dispatcher, Event};
use truss::ipc::protocol::{handle_request, IpcRequest, IpcResponse};
use truss::layout::{LayoutConfig, LayoutKind};
use truss::state::window::{Rect, WindowId};
use truss::state::State;

fn setup(n: usize) -> (Dispatcher, State, Vec<WindowId>) {
    let d = Dispatcher::new();
    let mut s = State::new();
    let mut ids = Vec::new();
    for _ in 0..n {
        ids.push(s.create_window(None).unwrap());
    }
    (d, s, ids)
}

#[test]
fn workspace_switch_broadcasts_only_on_change() {
    let (mut d, mut s, _) = setup(0);
    assert!(matches!(d.dispatch(&mut s, Command::WorkspaceSwitch { id: 2 }), Ok(DispatchResult::Done)));
    assert!(matches!(d.dispatch(&mut s, Command::WorkspaceSwitch { id: 2 }), Ok(DispatchResult::Done)));
    assert_eq!(d.take_events(), vec![Event::WorkspaceSwitched { id: 2 }]);
    let err = d.dispatch(&mut s, Command::WorkspaceSwitch { id: 12 }).unwrap_err();
    assert_eq!(err, DispatchError::State("Workspace with id 12 not found".to_string()));
    assert_eq!(err.message(), "State error: Workspace with id 12 not found");
    assert!(d.take_events().is_empty());
}

#[test]
fn focus_direction_and_swap() {
    let (mut d, mut s, ids) = setup(3);
    d.dispatch(&mut s, Command::WindowFocusDir { direction: Direction::Next }).unwrap();
    assert_eq!(s.active_workspace().focused_window, Some(ids[1]));
    d.dispatch(&mut s, Command::WindowFocusDir { direction: Direction::Prev }).unwrap();
    assert_eq!(s.active_workspace().focused_window, Some(ids[0]));
    d.dispatch(&mut s, Command::WindowFocusDir { direction: Direction::Prev }).unwrap();
    d.dispatch(&mut s, Command::WindowSwapMaster).unwrap();
    assert_eq!(s.active_workspace().windows, vec![ids[2], ids[1], ids[0]]);
    assert_eq!(
        d.take_events(),
        vec![
            Event::WindowFocused { id: ids[1] },
            Event::WindowFocused { id: ids[0] },
            Event::WindowFocused { id: ids[2] },
            Event::WindowFocused { id: ids[2] },
        ]
    );
}

#[test]
fn close_window_queues_client_close() {
    let (mut d, mut s, ids) = setup(2);
    d.dispatch(&mut s, Command::WindowClose { id: None }).unwrap();
    assert!(!s.windows.contains_key(&ids[0].0));
    assert_eq!(d.take_pending_closes(), vec![ids[0]]);
    assert_eq!(d.take_events(), vec![Event::WindowDestroyed { id: ids[0] }]);
    let err = d.dispatch(&mut s, Command::WindowClose { id: Some(WindowId(40)) }).unwrap_err();
    assert_eq!(err, DispatchError::State("Window with id WindowId(40) not found".to_string()));
    assert!(d.take_pending_closes().is_empty());
}

#[test]
fn close_without_focus_is_a_no_op() {
    let (mut d, mut s, _) = setup(0);
    assert!(matches!(d.dispatch(&mut s, Command::WindowClose { id: None }), Ok(DispatchResult::Done)));
    assert!(d.take_events().is_empty());
}

#[test]
fn toggles_announce_window_state() {
    let (mut d, mut s, ids) = setup(1);
    d.dispatch(&mut s, Command::WindowToggleFloating { id: None }).unwrap();
    d.dispatch(&mut s, Command::WindowToggleFullscreen { id: Some(ids[0]) }).unwrap();
    assert_eq!(
        d.take_events(),
        vec![
            Event::WindowStateChanged { id: ids[0], floating: true, fullscreen: false },
            Event::WindowStateChanged { id: ids[0], floating: true, fullscreen: true },
        ]
    );
}

#[test]
fn move_to_workspace_needs_a_window() {
    let (mut d, mut s, _) = setup(0);
    let err = d
        .dispatch(&mut s, Command::WindowMoveToWorkspace { window_id: None, workspace_id: 2 })
        .unwrap_err();
    assert_eq!(err, DispatchError::InvalidParams("No focused window to move".to_string()));
    let a = s.create_window(None).unwrap();
    d.dispatch(&mut s, Command::WindowMoveToWorkspace { window_id: None, workspace_id: 2 }).unwrap();
    assert_eq!(s.windows[&a.0].workspace_id, 2);
    assert_eq!(d.take_events(), vec![Event::WindowMovedWorkspace { id: a, workspace_id: 2 }]);
}

#[test]
fn layout_commands() {
    let (mut d, mut s, _) = setup(0);
    let err = d.dispatch(&mut s, Command::LayoutSet { layout: "spiral".to_string() }).unwrap_err();
    assert_eq!(err.message(), "Invalid parameters: Unknown layout 'spiral'");
    d.dispatch(&mut s, Command::LayoutSet { layout: "monocle".to_string() }).unwrap();
    assert_eq!(s.active_workspace().layout, "monocle");
    d.dispatch(&mut s, Command::LayoutSetGap { gap: 100_000 }).unwrap();
    assert_eq!(d.layout_config.gap, 4096);
    d.dispatch(&mut s, Command::LayoutSetRatio { ratio: Some(9500) }).unwrap();
    assert_eq!(d.layout_config.master_ratio, 9000);
    d.dispatch(&mut s, Command::LayoutSetRatio { ratio: Some(-3) }).unwrap();
    assert_eq!(d.layout_config.master_ratio, 1000);
    let err = d.dispatch(&mut s, Command::LayoutSetRatio { ratio: None }).unwrap_err();
    assert_eq!(err, DispatchError::InvalidParams("Master ratio must be a finite number".to_string()));
    assert_eq!(
        d.take_events(),
        vec![
            Event::LayoutChanged { workspace_id: 1, layout: "monocle".to_string() },
            Event::LayoutConfigChanged { gap: Some(4096), master_ratio: None },
            Event::LayoutConfigChanged { gap: None, master_ratio: Some(9000) },
            Event::LayoutConfigChanged { gap: None, master_ratio: Some(1000) },
        ]
    );
}

#[test]
fn spawn_state_get_quit_and_unknown() {
    let (mut d, mut s, _) = setup(1);
    d.dispatch(&mut s, Command::Spawn { command: "kitty".to_string() }).unwrap();
    assert_eq!(d.take_pending_spawns(), vec!["kitty".to_string()]);
    match d.dispatch(&mut s, Command::StateGet).unwrap() {
        DispatchResult::State(copy) => {
            assert_eq!(copy.windows.len(), 1);
            assert_eq!(copy.active_workspace_id, 1);
        },
        other => panic!("unexpected {other:?}"),
    }
    assert!(matches!(d.dispatch(&mut s, Command::CompositorQuit), Ok(DispatchResult::Quitting)));
    assert_eq!(d.take_events(), vec![Event::CompositorQuitting]);
    let err = d.dispatch(&mut s, Command::WorkspaceNext).unwrap_err();
    assert_eq!(err.message(), "Command not recognized or unsupported: workspace.next");
    d.dispatch(&mut s, Command::ConfigReload).unwrap();
    assert!(d.take_events().is_empty());
    assert!(d.take_reload_request());
    assert!(!d.take_reload_request());
}

#[test]
fn commands_that_change_nothing_announce_nothing() {
    let (mut d, mut s, ids) = setup(2);
    let gap = d.layout_config.gap;
    d.dispatch(&mut s, Command::LayoutSetGap { gap }).unwrap();
    d.dispatch(&mut s, Command::LayoutSetRatio { ratio: Some(d.layout_config.master_ratio as i64) }).unwrap();
    let layout = s.active_workspace().layout.clone();
    d.dispatch(&mut s, Command::LayoutSet { layout }).unwrap();
    d.dispatch(&mut s, Command::WindowMoveToWorkspace { window_id: Some(ids[0]), workspace_id: 1 }).unwrap();
    d.dispatch(&mut s, Command::WorkspaceSwitch { id: 1 }).unwrap();
    assert!(d.take_events().is_empty());

    // Focusing a window twice announces it once.
    d.dispatch(&mut s, Command::WindowFocus { id: ids[1] }).unwrap();
    d.dispatch(&mut s, Command::WindowFocus { id: ids[1] }).unwrap();
    assert_eq!(d.take_events(), vec![Event::WindowFocused { id: ids[1] }]);

    // A real change is still announced.
    d.dispatch(&mut s, Command::LayoutSetGap { gap: gap + 2 }).unwrap();
    assert_eq!(d.take_events(), vec![Event::LayoutConfigChanged { gap: Some(gap + 2), master_ratio: None }]);
}

#[test]
fn refused_commands_change_nothing() {
    let (mut d, mut s, ids) = setup(2);
    let before = s.duplicate();
    let _ = d.dispatch(&mut s, Command::WindowFocus { id: WindowId(77) });
    let _ = d.dispatch(&mut s, Command::LayoutSet { layout: "nope".to_string() });
    assert_eq!(s.windows, before.windows);
    assert_eq!(s.workspaces, before.workspaces);
    assert_eq!(s.focus_history, before.focus_history);
    assert!(d.take_events().is_empty());
    assert_eq!(ids.len(), 2);
}

#[test]
fn recalculate_layout_arranges_tiled_and_fullscreen() {
    let (d, mut s, ids) = setup(3);
    s.toggle_floating(ids[2]).unwrap();
    s.set_window_geometry(ids[2], Rect::new(1, 1, 10, 10)).unwrap();
    let area = Rect::new(0, 0, 1000, 800);
    assert!(d.can_relayout(&s, 1, area));
    d.recalculate_workspace_layout(&mut s, 1, area);
    assert_eq!(s.windows[&ids[0].0].geometry, Rect::new(8, 8, 537, 784));
    assert_eq!(s.windows[&ids[1].0].geometry, Rect::new(553, 8, 439, 784));
    assert_eq!(s.windows[&ids[2].0].geometry, Rect::new(1, 1, 10, 10));
    s.toggle_fullscreen(ids[1]).unwrap();
    let full = Rect::new(0, 0, 1920, 1080);
    d.recalculate_workspace_layout_with_full_area(&mut s, 1, area, full);
    assert_eq!(s.windows[&ids[0].0].geometry, Rect::new(8, 8, 984, 784));
    assert_eq!(s.windows[&ids[1].0].geometry, full);
}

#[test]
fn dispatcher_defaults() {
    let d = Dispatcher::default();
    assert_eq!(d.layout_config, LayoutConfig { gap: 8, master_ratio: 5500, master_count: 1 });
    assert_eq!(d.layout_registry.get("grid"), Some(LayoutKind::Grid));
    assert_eq!(Command::WindowSwapMaster.name(), "window.swap_master");
    assert_eq!(Event::CompositorQuitting.name(), "compositor.quitting");
}

#[test]
fn ipc_requests_are_answered() {
    let (mut d, mut s, _) = setup(0);
    let ok = handle_request(&mut d, &mut s, IpcRequest { id: Some(5), command: Command::WorkspaceSwitch { id: 3 } });
    assert_eq!(ok.id, Some(5));
    assert!(ok.ok);
    assert!(matches!(ok.result, Some(DispatchResult::Done)));
    assert!(ok.error.is_none());
    let refused = handle_request(&mut d, &mut s, IpcRequest { id: Some(6), command: Command::WorkspaceSwitch { id: 33 } });
    assert_eq!(refused.id, Some(6));
    assert!(!refused.ok);
    assert!(refused.result.is_none());
    assert_eq!(refused.error.as_deref(), Some("State error: Workspace with id 33 not found"));
    assert_eq!(s.active_workspace_id, 3);
    let bad = IpcResponse::invalid_request("expected value");
    assert_eq!(bad.id, None);
    assert!(!bad.ok);
    assert_eq!(bad.error.as_deref(), Some("Invalid JSON request: expected value"));
    let e = IpcResponse::error(Some(1), DispatchError::UnknownCommand("x".to_string()));
    assert_eq!(e.error.as_deref(), Some("Command not recognized or unsupported: x"));
}

#[test]
fn user_layouts_can_be_chosen_and_arrange_the_workspace() {
    let (mut d, mut s, ids) = setup(2);
    assert!(d.dispatch(&mut s, Command::LayoutSet { layout: "columns".to_string() }).is_err());
    d.layout_registry.register_fn(
        "columns".to_string(),
        |ws: &[WindowId], a: Rect, _c: &LayoutConfig| -> Vec<(WindowId, Rect)> {
            let w = a.width / ws.len().max(1) as u32;
            ws.iter().enumerate().map(|(i, &id)| (id, Rect::new(a.x + (i as u32 * w) as i32, a.y, w, a.height))).collect()
        },
    );
    assert!(d.dispatch(&mut s, Command::LayoutSet { layout: "columns".to_string() }).is_ok());
    let area = Rect::new(0, 0, 1000, 800);
    assert!(d.can_relayout(&s, 1, area));
    d.recalculate_workspace_layout(&mut s, 1, area);
    assert_eq!(s.windows[&ids[0].0].geometry, Rect::new(0, 0, 500, 800));
    assert_eq!(s.windows[&ids[1].0].geometry, Rect::new(500, 0, 500, 800));
}
