use truss::dispatch::{Command, DispatchResult, Dispatcher};
use truss::input::keybindings::{KeyResponse, keysym_from_lowercase, KeyAction, KeyPattern, Keybindings, Modifiers};
use truss::input::pointer::{button_response, find_target_at, point_hits, ButtonResponse, BUTTON_LEFT, BUTTON_RIGHT, start_drag, update_drag, PointerDragMode, PointerFocusTarget};
use truss::input::{keysym_from_name, parse_vt_switch};
use truss::state::window::{Rect, WindowId};
use truss::state::State;
use truss::sync::transaction::{Transaction, TransactionManager, TRANSACTION_TIMEOUT_MS};

#[test]
fn keysyms_of_names() {
    assert_eq!(keysym_from_name("q"), Some(0x71));
    assert_eq!(keysym_from_name(" Q "), Some(0x71));
    assert_eq!(keysym_from_name("7"), Some(0x37));
    assert_eq!(keysym_from_name("Return"), Some(0xff0d));
    assert_eq!(keysym_from_name("enter"), Some(0xff0d));
    assert_eq!(keysym_from_name("Page_Down"), Some(0xff56));
    assert_eq!(keysym_from_name("Prior"), Some(0xff55));
    assert_eq!(keysym_from_name("BackSpace"), Some(0xff08));
    assert_eq!(keysym_from_name("bracketleft"), Some(0x5b));
    assert_eq!(keysym_from_name("F1"), Some(0xffbe));
    assert_eq!(keysym_from_name("f12"), Some(0xffc9));
    assert_eq!(keysym_from_name("F24"), Some(0xffd5));
    assert_eq!(keysym_from_name("F25"), None);
    assert_eq!(keysym_from_name("F0"), None);
    assert_eq!(keysym_from_name("f"), Some(0x66));
    assert_eq!(keysym_from_name("#"), None);
    assert_eq!(keysym_from_name("hyper"), None);
    assert_eq!(keysym_from_name(""), None);
    assert_eq!(keysym_from_lowercase("f+3"), Some(0xffc0));
}

#[test]
fn vt_switch_requests() {
    let none = Modifiers::none();
    let ctrl_alt = Modifiers { ctrl: true, alt: true, shift: false, logo: false };
    assert_eq!(parse_vt_switch(none, 0x1008_fe03, 0, 0), Some(3));
    assert_eq!(parse_vt_switch(none, 0, 0x1008_fe0c, 0), Some(12));
    assert_eq!(parse_vt_switch(none, 0xffbe, 0, 59), None);
    assert_eq!(parse_vt_switch(ctrl_alt, 0xffbf, 0, 0), Some(2));
    assert_eq!(parse_vt_switch(ctrl_alt, 0, 0xffc9, 0), Some(12));
    assert_eq!(parse_vt_switch(ctrl_alt, 0, 0, 60), Some(2));
    assert_eq!(parse_vt_switch(ctrl_alt, 0, 0, 87), Some(11));
    assert_eq!(parse_vt_switch(ctrl_alt, 0, 0, 88), Some(12));
    assert_eq!(parse_vt_switch(ctrl_alt, 0, 0, 70), None);
}

#[test]
fn modifiers_compare_and_presets() {
    assert!(Modifiers::super_key().matches(&Modifiers { ctrl: false, alt: false, shift: false, logo: true }));
    assert!(!Modifiers::super_shift().matches(&Modifiers::super_key()));
    assert_eq!(Modifiers::default(), Modifiers::none());
    assert_eq!(KeyPattern::new(Modifiers::none(), 5).keysym, 5);
}

#[test]
fn keybindings_bind_match_and_fold_case() {
    let mut kb = Keybindings::new();
    let sup = Modifiers::super_key();
    kb.bind(KeyPattern::new(sup, 0x71), KeyAction::Dispatch(Command::WindowClose { id: None }));
    kb.bind(KeyPattern::new(sup, 0x44), KeyAction::Spawn("fuzzel".to_string()));
    assert_eq!(kb.match_action(sup, 0x71), Some(&KeyAction::Dispatch(Command::WindowClose { id: None })));
    assert_eq!(kb.match_action(sup, 0x51), Some(&KeyAction::Dispatch(Command::WindowClose { id: None })));
    assert_eq!(kb.match_action(sup, 0x64), Some(&KeyAction::Spawn("fuzzel".to_string())));
    assert_eq!(kb.match_action(Modifiers::none(), 0x71), None);
    assert!(kb.unbind(&KeyPattern::new(sup, 0x71)));
    assert!(!kb.unbind(&KeyPattern::new(sup, 0x71)));
    assert_eq!(kb.match_action(sup, 0x71), None);
    kb.clear();
    assert_eq!(kb.match_action(sup, 0x64), None);
}

#[test]
fn keybinding_actions_go_through_the_dispatcher() {
    let kb = Keybindings::default();
    let mut d = Dispatcher::new();
    let mut s = State::new();
    let r = kb.execute_action(&KeyAction::Spawn("kitty".to_string()), &mut d, &mut s);
    assert!(matches!(r, Ok(DispatchResult::Done)));
    assert_eq!(d.take_pending_spawns(), vec!["kitty".to_string()]);
    let r = kb.execute_action(&KeyAction::Dispatch(Command::WorkspaceSwitch { id: 4 }), &mut d, &mut s);
    assert!(r.is_ok());
    assert_eq!(s.active_workspace_id, 4);
}

#[test]
fn pointer_targets_topmost_window() {
    let mut s = State::new();
    let a = s.create_window(None).unwrap();
    let b = s.create_window(None).unwrap();
    s.set_window_geometry(a, Rect::new(0, 0, 100, 100)).unwrap();
    s.set_window_geometry(b, Rect::new(50, 50, 100, 100)).unwrap();
    assert_eq!(find_target_at(60, 60, &s), PointerFocusTarget::Window(b));
    assert_eq!(find_target_at(10, 10, &s), PointerFocusTarget::Window(a));
    assert_eq!(find_target_at(100, 10, &s), PointerFocusTarget::Background);
    assert_eq!(find_target_at(-1, 10, &s), PointerFocusTarget::Background);
}

#[test]
fn transactions_complete_when_all_windows_commit() {
    let mut m = TransactionManager::new();
    let id = m.create_transaction(&[WindowId(1), WindowId(2)]);
    assert_eq!(id, 1);
    assert!(m.has_active_transactions());
    assert!(!m.is_blocked(WindowId(1)));
    m.apply_commit(WindowId(1), &[]);
    assert!(m.is_blocked(WindowId(1)));
    assert!(!m.is_blocked(WindowId(2)));
    m.apply_commit(WindowId(2), &[]);
    assert!(!m.has_active_transactions());
    let empty = m.create_transaction(&[]);
    assert_eq!(empty, 2);
    assert!(!m.has_active_transactions());
}

#[test]
fn transactions_expire_and_force_complete() {
    let mut m = TransactionManager::new();
    let a = m.create_transaction(&[WindowId(1)]);
    let b = m.create_transaction(&[WindowId(2)]);
    m.retain_live(&[a]);
    assert!(!m.active_transactions.contains_key(&a));
    assert!(m.active_transactions.contains_key(&b));
    m.apply_commit(WindowId(9), &[b]);
    assert!(!m.has_active_transactions());
    m.create_transaction(&[WindowId(3)]);
    m.prune_expired();
    m.on_surface_commit(WindowId(4));
    m.force_complete_all();
    assert!(!m.has_active_transactions());
    assert_eq!(TransactionManager::default().create_transaction(&[]), 0);
}

#[test]
fn transaction_commit_moves_windows() {
    let mut t = Transaction::new(7, &[WindowId(1), WindowId(2), WindowId(1)]);
    assert_eq!(t.pending_windows.len(), 2);
    assert!(!t.on_commit(WindowId(1)));
    assert!(t.committed_windows.contains(&1));
    assert!(!t.on_commit(WindowId(5)));
    assert!(t.on_commit(WindowId(2)));
    assert!(t.is_complete());
    assert!(!t.is_expired());
}

#[test]
fn transaction_expires_at_its_deadline() {
    let t = Transaction::new(1, &[WindowId(1)]);
    assert_eq!(t.deadline_ms, TRANSACTION_TIMEOUT_MS);
    assert_eq!(t.deadline_ms, 300);
    assert!(!t.is_expired_at(0));
    assert!(!t.is_expired_at(299));
    assert!(t.is_expired_at(300));
    assert!(t.is_expired_at(u64::MAX));
    assert!(t.elapsed_ms() < 300);
}

#[test]
fn key_response_prefers_vt_switch_then_bindings() {
    let mut kb = Keybindings::new();
    kb.bind(KeyPattern::new(Modifiers::super_key(), 0x0071), KeyAction::Spawn("kitty".to_string()));
    let ctrl_alt = Modifiers { ctrl: true, alt: true, shift: false, logo: false };
    kb.bind(KeyPattern::new(ctrl_alt, 0xffbe), KeyAction::Spawn("never".to_string()));
    // Ctrl+Alt+F1 switches terminals where the session can, ahead of the binding.
    assert!(matches!(kb.key_response(ctrl_alt, 0xffbe, 0xffbe, 59, true, true), KeyResponse::SwitchVt(1)));
    assert!(matches!(
        kb.key_response(ctrl_alt, 0xffbe, 0xffbe, 59, true, false),
        KeyResponse::Run(KeyAction::Spawn(ref s)) if s == "never"
    ));
    // The translated keysym is tried first, then the raw one.
    assert!(matches!(
        kb.key_response(Modifiers::super_key(), 0x0051, 0x0071, 24, true, true),
        KeyResponse::Run(KeyAction::Spawn(ref s)) if s == "kitty"
    ));
    assert!(matches!(
        kb.key_response(Modifiers::super_key(), 0x00e9, 0x0071, 24, true, true),
        KeyResponse::Run(KeyAction::Spawn(ref s)) if s == "kitty"
    ));
    // Releases and unbound presses are passed on.
    assert!(matches!(kb.key_response(Modifiers::super_key(), 0x0071, 0x0071, 24, false, true), KeyResponse::Forward));
    assert!(matches!(kb.key_response(Modifiers::none(), 0x0071, 0x0071, 24, true, true), KeyResponse::Forward));
}

#[test]
fn super_drag_floats_then_moves_and_resizes() {
    let mut s = State::new();
    let id = s.create_window(None).unwrap();
    s.set_window_geometry(id, Rect::new(100, 100, 400, 300)).unwrap();
    let mode = start_drag(&mut s, id, false, 150, 120);
    assert_eq!(mode, PointerDragMode::Move { window_id: id, offset_x: 50, offset_y: 20 });
    assert!(s.windows.get(&id.0).unwrap().floating);
    update_drag(&mut s, mode, 250, 20);
    assert_eq!(s.windows.get(&id.0).unwrap().geometry, Rect::new(200, 0, 400, 300));

    let mode = start_drag(&mut s, id, true, 600, 300);
    assert_eq!(
        mode,
        PointerDragMode::Resize { window_id: id, start: Rect::new(200, 0, 400, 300), start_x: 600, start_y: 300 }
    );
    update_drag(&mut s, mode, 650, -100);
    // Width grows with the pointer; the height cannot fall below one pixel.
    assert_eq!(s.windows.get(&id.0).unwrap().geometry, Rect::new(200, 0, 450, 1));

    assert_eq!(start_drag(&mut s, WindowId(77), false, 0, 0), PointerDragMode::Idle);
    update_drag(&mut s, PointerDragMode::Idle, 5, 5);
    assert_eq!(s.windows.get(&id.0).unwrap().geometry, Rect::new(200, 0, 450, 1));
}

#[test]
fn point_hits_half_open_rectangles() {
    let r = Rect::new(10, 20, 100, 50);
    assert!(point_hits(&r, 10, 20));
    assert!(point_hits(&r, 109, 69));
    assert!(!point_hits(&r, 110, 20));
    assert!(!point_hits(&r, 10, 70));
    assert!(!point_hits(&r, 9, 30));
    // An extent beyond i32 counts as negative, as a signed coordinate.
    assert!(!point_hits(&Rect::new(0, 0, 0x8000_0000, 10), 5, 5));
}

#[test]
fn super_buttons_start_drags_instead_of_clicks() {
    let w = PointerFocusTarget::Window(WindowId(4));
    assert_eq!(
        button_response(w, true, true, BUTTON_LEFT),
        ButtonResponse::Window { id: WindowId(4), drag: Some(false), forward: false }
    );
    assert_eq!(
        button_response(w, true, true, BUTTON_RIGHT),
        ButtonResponse::Window { id: WindowId(4), drag: Some(true), forward: false }
    );
    assert_eq!(
        button_response(w, true, true, 0x112),
        ButtonResponse::Window { id: WindowId(4), drag: None, forward: false }
    );
    assert_eq!(
        button_response(w, true, false, BUTTON_LEFT),
        ButtonResponse::Window { id: WindowId(4), drag: None, forward: true }
    );
    assert_eq!(button_response(PointerFocusTarget::Background, true, true, BUTTON_LEFT), ButtonResponse::Background);
    assert_eq!(button_response(w, false, true, BUTTON_LEFT), ButtonResponse::Release);
}
