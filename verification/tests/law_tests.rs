use truss::scene::{configure_update, ConfigureTarget, ConfigureUpdate, PendingConfigure};
use truss::config::parse_hex_color;
use truss::dispatch::{Command, Direction, Dispatcher};
use truss::input::keybindings::{KeyAction, KeyPattern, Keybindings, Modifiers};
use truss::layout::{LayoutConfig, LayoutKind, LayoutRegistry};
use truss::layout::master::MasterLayout;
use truss::state::window::Rect;
use truss::state::window::WindowId;
use truss::state::workspace::Workspace;
use truss::state::State;
use truss::sync::transaction::TransactionManager;

#[test]
fn cycling_next_then_previous_returns() {
    let mut s = State::new();
    for start in [1u32, 5, 9] {
        s.switch_workspace(start).unwrap();
        let n = s.next_workspace_id().unwrap();
        s.switch_workspace(n).unwrap();
        assert_eq!(s.prev_workspace_id(), Some(start));
        s.switch_workspace(start).unwrap();
        let p = s.prev_workspace_id().unwrap();
        s.switch_workspace(p).unwrap();
        assert_eq!(s.next_workspace_id(), Some(start));
    }
}

#[test]
fn focus_next_then_prev_returns() {
    let mut ws = Workspace::new(1, "1".to_string(), "master".to_string());
    for i in 1..=4u64 {
        ws.add_window(WindowId(i));
    }
    for _ in 0..4 {
        let before = ws.focused_window;
        ws.focus_next();
        ws.focus_prev();
        assert_eq!(ws.focused_window, before);
        ws.focus_prev();
        ws.focus_next();
        assert_eq!(ws.focused_window, before);
        ws.focus_next();
    }
}

#[test]
fn dispatch_focus_round_trip() {
    let mut d = Dispatcher::new();
    let mut s = State::new();
    let a = s.create_window(None).unwrap();
    s.create_window(None).unwrap();
    d.dispatch(&mut s, Command::WindowFocusDir { direction: Direction::Next }).unwrap();
    d.dispatch(&mut s, Command::WindowFocusDir { direction: Direction::Prev }).unwrap();
    assert_eq!(s.active_workspace().focused_window, Some(a));
}

#[test]
fn floating_and_pin_toggles_round_trip() {
    let mut s = State::new();
    let a = s.create_window(None).unwrap();
    let before = s.windows[&a.0].clone();
    s.toggle_floating(a).unwrap();
    s.toggle_floating(a).unwrap();
    s.toggle_pinned(a).unwrap();
    s.toggle_pinned(a).unwrap();
    assert_eq!(s.windows[&a.0], before);
}

#[test]
fn create_then_remove_restores_windows() {
    let mut s = State::new();
    let keep = s.create_window(None).unwrap();
    let windows = s.windows.clone();
    let list = s.active_workspace().windows.clone();
    let a = s.create_window(None).unwrap();
    s.remove_window(a).unwrap();
    assert_eq!(s.windows, windows);
    assert_eq!(s.active_workspace().windows, list);
    assert!(s.windows.contains_key(&keep.0));
}

#[test]
fn closed_window_is_gone_and_queued() {
    let mut d = Dispatcher::new();
    let mut s = State::new();
    let a = s.create_window(Some(2)).unwrap();
    d.dispatch(&mut s, Command::WindowClose { id: Some(a) }).unwrap();
    assert!(!s.windows.contains_key(&a.0));
    assert!(s.workspaces.values().all(|w| !w.windows.contains(&a)));
    assert_eq!(d.take_pending_closes(), vec![a]);
}

#[test]
fn bound_key_is_found_in_either_case() {
    let mut kb = Keybindings::new();
    let m = Modifiers::super_key();
    kb.bind(KeyPattern::new(m, 0x6a), KeyAction::Dispatch(Command::WindowFocusDir { direction: Direction::Next }));
    assert!(kb.match_action(m, 0x6a).is_some());
    assert_eq!(kb.match_action(m, 0x4a), kb.match_action(m, 0x6a));
}

#[test]
fn registered_layout_is_found() {
    let mut r = LayoutRegistry::empty();
    r.register("tall".to_string(), LayoutKind::Master);
    assert_eq!(r.get("tall"), Some(LayoutKind::Master));
}

#[test]
fn short_colors_expand() {
    assert_eq!(parse_hex_color("#abc"), parse_hex_color("#aabbcc"));
    assert_eq!(parse_hex_color("#09F"), parse_hex_color("#0099FF"));
}

#[test]
fn all_commits_complete_a_transaction() {
    let mut m = TransactionManager::new();
    m.create_transaction(&[WindowId(1), WindowId(2), WindowId(3)]);
    for w in [3u64, 1, 2] {
        assert!(m.has_active_transactions());
        m.apply_commit(WindowId(w), &[]);
    }
    assert!(!m.has_active_transactions());
}

#[test]
fn master_rects_are_nonempty_and_ratio_is_clamped() {
    let ids = [WindowId(1), WindowId(2), WindowId(3)];
    let cfg = LayoutConfig { gap: 8, master_ratio: 9900, master_count: 1 };
    let clamped = LayoutConfig { master_ratio: 9000, ..cfg };
    let area = Rect::new(0, 0, 40, 20);
    let r = MasterLayout.arrange(&ids, area, &cfg);
    assert_eq!(r.len(), 3);
    for (i, (id, rect)) in r.iter().enumerate() {
        assert_eq!(*id, ids[i]);
        assert!(rect.width >= 1 && rect.height >= 1);
    }
    assert_eq!(r, MasterLayout.arrange(&ids, area, &clamped));
    let one = MasterLayout.arrange(&ids[..1], Rect::new(10, 20, 100, 50), &cfg);
    assert_eq!(one, vec![(WindowId(1), Rect::new(18, 28, 84, 34))]);
}

#[test]
fn a_second_identical_configure_changes_nothing() {
    let old = PendingConfigure { size: Some((10, 10)), activated: false, fullscreen: true, tiled: false };
    let t = ConfigureTarget { activated: true, fullscreen: false, size: Some((300, 200)), tiled: true };
    let first = configure_update(old, t);
    assert!(first.changed && first.resized);
    let second = configure_update(first.pending, t);
    assert_eq!(second, ConfigureUpdate { pending: first.pending, resized: false, changed: false });
}
