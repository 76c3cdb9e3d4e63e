use truss::scene::{
    band_windows, border_pieces, configure_pass, configure_target, configure_update, stacking_order,
    stays_mapped, visible_windows, Band, BorderPiece, ConfigureTarget, ConfigureUpdate, PendingConfigure,
    SceneStep,
};
use truss::state::window::{Rect, WindowId};
use truss::state::{State, SPECIAL_WORKSPACE_ID};

#[test]
fn bands_split_active_windows() {
    let mut s = State::new();
    let a = s.create_window(None).unwrap();
    let b = s.create_window(None).unwrap();
    let c = s.create_window(None).unwrap();
    let d = s.create_window(None).unwrap();
    s.toggle_floating(b).unwrap();
    s.toggle_floating(d).unwrap();
    s.toggle_fullscreen(c).unwrap();
    assert_eq!(band_windows(&s, Band::Tiled, false), vec![a]);
    assert_eq!(band_windows(&s, Band::Floating, false), vec![b, d]);
    assert_eq!(band_windows(&s, Band::Floating, true), vec![d, b]);
    assert_eq!(band_windows(&s, Band::Fullscreen, true), vec![c]);
}

#[test]
fn borders_surround_the_window() {
    let g = Rect::new(10, 20, 100, 50);
    assert_eq!(
        border_pieces(g, false, 2),
        vec![
            BorderPiece { x: 8, y: 18, width: 104, height: 2 },
            BorderPiece { x: 8, y: 70, width: 104, height: 2 },
            BorderPiece { x: 8, y: 20, width: 2, height: 50 },
            BorderPiece { x: 110, y: 20, width: 2, height: 50 },
        ]
    );
    assert!(border_pieces(g, true, 2).is_empty());
    assert!(border_pieces(g, false, 0).is_empty());
}

#[test]
fn visible_windows_follow_groups_pins_and_special() {
    let mut s = State::new();
    let a = s.create_window(None).unwrap();
    let b = s.create_window(None).unwrap();
    let c = s.create_window(None).unwrap();
    let p = s.create_window(Some(4)).unwrap();
    let sp = s.create_window(Some(SPECIAL_WORKSPACE_ID)).unwrap();
    s.windows.get_mut(&b.0).unwrap().group_id = Some(7);
    s.windows.get_mut(&c.0).unwrap().group_id = Some(7);
    s.toggle_pinned(p).unwrap();
    assert_eq!(visible_windows(&s), vec![a, b, p]);
    s.focus_window(c).unwrap();
    assert_eq!(visible_windows(&s), vec![a, b, c, p]);
    s.toggle_special_workspace();
    assert_eq!(visible_windows(&s), vec![a, b, c, p, sp]);
    assert!(stays_mapped(&s, sp));
    assert!(stays_mapped(&s, p));
    assert!(stays_mapped(&s, a));
    s.toggle_special_workspace();
    assert!(!stays_mapped(&s, sp));
    assert!(!stays_mapped(&s, WindowId(99)));
}

#[test]
fn configure_targets() {
    let mut s = State::new();
    let a = s.create_window(None).unwrap();
    let b = s.create_window(Some(2)).unwrap();
    s.set_window_geometry(a, Rect::new(0, 0, 640, 480)).unwrap();
    assert_eq!(
        configure_target(&s, a),
        Some(ConfigureTarget { activated: true, fullscreen: false, size: Some((640, 480)), tiled: true })
    );
    assert_eq!(
        configure_target(&s, b),
        Some(ConfigureTarget { activated: false, fullscreen: false, size: None, tiled: false })
    );
    assert_eq!(configure_target(&s, WindowId(50)), None);
}

#[test]
fn stacking_puts_fullscreen_over_layers_over_floating_over_tiled() {
    let mut s = State::new();
    let a = s.create_window(None).unwrap();
    let b = s.create_window(None).unwrap();
    let c = s.create_window(None).unwrap();
    let d = s.create_window(None).unwrap();
    let e = s.create_window(None).unwrap();
    s.toggle_floating(b).unwrap();
    s.toggle_fullscreen(c).unwrap();
    s.toggle_floating(d).unwrap();
    assert_eq!(
        stacking_order(&s, true),
        vec![
            SceneStep::Window(c),
            SceneStep::UpperLayers,
            SceneStep::UnmappedLayers,
            SceneStep::Window(d),
            SceneStep::Window(b),
            SceneStep::Window(a),
            SceneStep::Window(e),
            SceneStep::LowerLayers,
        ]
    );
    assert_eq!(
        stacking_order(&s, false),
        vec![
            SceneStep::Window(c),
            SceneStep::UpperLayers,
            SceneStep::Window(d),
            SceneStep::Window(b),
            SceneStep::Window(e),
            SceneStep::Window(a),
            SceneStep::LowerLayers,
        ]
    );
}

#[test]
fn configure_updates_report_resizes_and_changes() {
    let old = PendingConfigure { size: Some((100, 100)), activated: false, fullscreen: false, tiled: true };
    let t = ConfigureTarget { activated: true, fullscreen: false, size: Some((100, 100)), tiled: true };
    assert_eq!(
        configure_update(old, t),
        ConfigureUpdate {
            pending: PendingConfigure { size: Some((100, 100)), activated: true, fullscreen: false, tiled: true },
            resized: false,
            changed: true,
        }
    );
    let same = PendingConfigure { activated: true, ..old };
    assert_eq!(configure_update(same, t), ConfigureUpdate { pending: same, resized: false, changed: false });
    let grow = ConfigureTarget { size: Some((200, 100)), ..t };
    let u = configure_update(same, grow);
    assert!(u.resized && u.changed);
    assert_eq!(u.pending.size, Some((200, 100)));
    // A window off the active workspace keeps its size.
    let off = ConfigureTarget { activated: false, fullscreen: false, size: None, tiled: false };
    let u = configure_update(same, off);
    assert_eq!(u.pending, PendingConfigure { size: Some((100, 100)), activated: false, fullscreen: false, tiled: false });
    assert!(!u.resized && u.changed);

    let mut s = State::new();
    let a = s.create_window(None).unwrap();
    let b = s.create_window(None).unwrap();
    s.set_window_geometry(a, Rect::new(0, 0, 640, 480)).unwrap();
    s.set_window_geometry(b, Rect::new(640, 0, 640, 480)).unwrap();
    let fresh = PendingConfigure { size: None, activated: false, fullscreen: false, tiled: false };
    let current = vec![(a, fresh), (WindowId(99), fresh), (b, PendingConfigure { size: Some((640, 480)), tiled: true, ..fresh })];
    let (updates, resized) = configure_pass(&s, &current);
    assert_eq!(updates.len(), 2);
    assert_eq!(updates[0].0, a);
    assert!(updates[0].1.resized);
    assert_eq!(updates[1].0, b);
    assert!(!updates[1].1.resized);
    assert_eq!(resized, vec![a]);
}
