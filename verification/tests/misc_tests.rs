use truss::bar::{bar_line, clock_text, epoch_text};
use truss::cli::{backend_choice, msg_command, BackendChoice, CliArgs, MsgError, Subcommand};
use truss::compositor::{apply_window_rules, FocusMode, KeyboardConfig};
use truss::config::{
    apply_keybinding_entries, apply_rule_entries, classify_setting, default_config_candidates_from,
    default_user_config_path_from, parse_hex_color, parse_modifiers, path_join,
    resolve_config_source, ConfigSource, KeybindEntry, RuleEntry, RuleFields, SettingKind,
};
use truss::config::watch::events_concern_file;
use truss::dispatch::{Command, Direction};
use truss::input::keybindings::{KeyAction, KeyPattern, Keybindings, Modifiers};
use truss::process::{looks_like_noninteractive_shell, passwd_shell, shell_path_is_executable};
use truss::state::rules::{WindowRule, WindowRuleAction, WindowRuleManager, WindowRuleMatcher};
use truss::state::window::WindowId;
use truss::state::State;

fn words(v: &[&str]) -> Vec<String> {
    v.iter().map(|s| s.to_string()).collect()
}

#[test]
fn cli_options_and_subcommands() {
    let cli = CliArgs::parse_from(words(&["-c", "/tmp/c.lua", "--socket", "truss-1", "-b", "WINIT"]));
    assert_eq!(cli.config_path.as_deref(), Some("/tmp/c.lua"));
    assert_eq!(cli.socket_name, "truss-1");
    assert_eq!(cli.backend.as_deref(), Some("winit"));
    assert_eq!(cli.subcommand, None);
    let cli = CliArgs::parse_from(words(&["msg", "workspace-switch", "2"]));
    assert_eq!(cli.subcommand, Some(Subcommand::Msg(words(&["workspace-switch", "2"]))));
    assert_eq!(cli.socket_name, "truss-0");
    let cli = CliArgs::parse_from(words(&["--frobnicate", "bar"]));
    assert_eq!(cli.subcommand, Some(Subcommand::Help));
    assert_eq!(cli.unrecognized.as_deref(), Some("--frobnicate"));
    let cli = CliArgs::parse_from(words(&["-s"]));
    assert_eq!(cli.socket_name, "truss-0");
    assert_eq!(cli.subcommand, None);
    assert_eq!(CliArgs::parse_from(words(&["bar", "-V"])).subcommand, Some(Subcommand::Bar));
    assert_eq!(CliArgs::parse_from(words(&["-V"])).subcommand, Some(Subcommand::Version));
    assert_eq!(CliArgs::parse_from(words(&["init-config"])).subcommand, Some(Subcommand::InitConfig));
    assert_eq!(CliArgs::parse_from(Vec::new()).subcommand, None);
}

#[test]
fn msg_commands() {
    assert_eq!(msg_command(&words(&[]), None), Err(MsgError::MissingCommand));
    assert_eq!(msg_command(&words(&["state-get"]), None), Ok(Command::StateGet));
    assert_eq!(msg_command(&words(&["workspace-switch", "4"]), None), Ok(Command::WorkspaceSwitch { id: 4 }));
    assert_eq!(msg_command(&words(&["workspace-switch", "x"]), None), Ok(Command::WorkspaceSwitch { id: 1 }));
    assert_eq!(
        msg_command(&words(&["window-focus-dir", "prev"]), None),
        Ok(Command::WindowFocusDir { direction: Direction::Prev })
    );
    assert_eq!(
        msg_command(&words(&["window-focus-dir", "up"]), None),
        Ok(Command::WindowFocusDir { direction: Direction::Next })
    );
    assert_eq!(msg_command(&words(&["close-window", "12"]), None), Ok(Command::WindowClose { id: Some(WindowId(12)) }));
    assert_eq!(msg_command(&words(&["toggle-floating"]), None), Ok(Command::WindowToggleFloating { id: None }));
    assert_eq!(
        msg_command(&words(&["layout-set"]), None),
        Ok(Command::LayoutSet { layout: "master".to_string() })
    );
    assert_eq!(msg_command(&words(&["set-gap", "16"]), None), Ok(Command::LayoutSetGap { gap: 16 }));
    assert_eq!(msg_command(&words(&["set-gap"]), None), Ok(Command::LayoutSetGap { gap: 8 }));
    assert_eq!(
        msg_command(&words(&["set-ratio", "0.6"]), Some(6000)),
        Ok(Command::LayoutSetRatio { ratio: Some(6000) })
    );
    assert_eq!(
        msg_command(&words(&["spawn", "kitty", "--hold"]), None),
        Ok(Command::Spawn { command: "kitty --hold".to_string() })
    );
    assert_eq!(msg_command(&words(&["spawn"]), None), Ok(Command::Spawn { command: String::new() }));
    assert_eq!(msg_command(&words(&["quit"]), None), Ok(Command::CompositorQuit));
    let err = msg_command(&words(&["dance"]), None).unwrap_err();
    assert_eq!(err.message(), "truss msg: unknown command 'dance'.");
    assert_eq!(
        MsgError::MissingCommand.message(),
        "truss msg: missing command. Run `truss --help` for available commands."
    );
}

#[test]
fn config_paths() {
    assert_eq!(path_join("/a", "b"), "/a/b");
    assert_eq!(path_join("/a/", "b"), "/a/b");
    assert_eq!(
        default_user_config_path_from(Some("/x/cfg"), Some("/home/u")).as_deref(),
        Some("/x/cfg/truss/config.lua")
    );
    assert_eq!(
        default_user_config_path_from(Some(""), Some("/home/u")).as_deref(),
        Some("/home/u/.config/truss/config.lua")
    );
    assert_eq!(default_user_config_path_from(None, Some("")), None);
    assert_eq!(
        default_config_candidates_from(Some("/x"), Some("/h")),
        words(&["/x/truss/config.lua", "/h/.config/truss/config.lua", "/etc/xdg/truss/config.lua"])
    );
    assert_eq!(default_config_candidates_from(None, None), words(&["/etc/xdg/truss/config.lua"]));
}

#[test]
fn config_source_resolution() {
    let c = words(&["/a", "/b", "/c"]);
    assert_eq!(resolve_config_source(Some("/cli.lua"), &c, &[true, true, true]), ConfigSource::File("/cli.lua".to_string()));
    assert_eq!(resolve_config_source(None, &c, &[false, true, true]), ConfigSource::File("/b".to_string()));
    assert_eq!(resolve_config_source(None, &c, &[false, false, false]), ConfigSource::Embedded);
    assert_eq!(resolve_config_source(None, &c, &[false]), ConfigSource::Embedded);
}

#[test]
fn settings_and_colors() {
    assert_eq!(classify_setting("gap"), SettingKind::Gap);
    assert_eq!(classify_setting("ratio"), SettingKind::Ratio);
    assert_eq!(classify_setting("bg_color"), SettingKind::BgColor);
    assert_eq!(classify_setting("border.width"), SettingKind::BorderWidth);
    assert_eq!(classify_setting("border.active_color"), SettingKind::ActiveBorderColor);
    assert_eq!(classify_setting("inactive_border_color"), SettingKind::InactiveBorderColor);
    assert_eq!(classify_setting("volume"), SettingKind::Unknown);
    assert_eq!(parse_hex_color("#14141a"), Some((0x14, 0x14, 0x1a)));
    assert_eq!(parse_hex_color("  #fA0 "), Some((0xff, 0xaa, 0x00)));
    assert_eq!(parse_hex_color("#abcd"), None);
    assert_eq!(parse_hex_color("14141a"), None);
    assert_eq!(parse_hex_color("#zz0000"), None);
    assert_eq!(parse_hex_color("#+f0000"), None);
    assert_eq!(parse_hex_color("#é00"), None);
}

#[test]
fn modifier_lists() {
    let sup = Modifiers { ctrl: false, alt: false, shift: false, logo: true };
    assert_eq!(parse_modifiers("SUPER"), Some(sup));
    assert_eq!(parse_modifiers("mod4"), Some(sup));
    assert_eq!(parse_modifiers(" Logo + Shift "), Some(Modifiers { shift: true, ..sup }));
    assert_eq!(parse_modifiers("ctrl+alt"), Some(Modifiers { ctrl: true, alt: true, shift: false, logo: false }));
    assert_eq!(parse_modifiers(""), Some(Modifiers::none()));
    assert_eq!(parse_modifiers("   "), Some(Modifiers::none()));
    assert_eq!(parse_modifiers("super+"), None);
    assert_eq!(parse_modifiers("hyper"), None);
}

#[test]
fn keybinding_declarations() {
    let mut kb = Keybindings::new();
    let entries = vec![
        KeybindEntry {
            mods: Some("SUPER".to_string()),
            key: Some("Return".to_string()),
            action: Some(KeyAction::Spawn("kitty".to_string())),
        },
        KeybindEntry {
            mods: Some("SUPER+SHIFT".to_string()),
            key: Some("q".to_string()),
            action: Some(KeyAction::Dispatch(Command::CompositorQuit)),
        },
        KeybindEntry { mods: Some("bogus".to_string()), key: Some("a".to_string()), action: Some(KeyAction::Spawn("x".to_string())) },
        KeybindEntry { mods: Some("SUPER".to_string()), key: Some("nokey".to_string()), action: Some(KeyAction::Spawn("y".to_string())) },
        KeybindEntry { mods: Some("SUPER".to_string()), key: Some("b".to_string()), action: None },
    ];
    apply_keybinding_entries(&mut kb, &entries);
    let sup = Modifiers::super_key();
    assert_eq!(kb.match_action(sup, 0xff0d), Some(&KeyAction::Spawn("kitty".to_string())));
    assert_eq!(kb.match_action(Modifiers::super_shift(), 0x71), Some(&KeyAction::Dispatch(Command::CompositorQuit)));
    assert_eq!(kb.match_action(sup, 0x62), None);
    assert_eq!(kb.match_action(Modifiers::none(), 0x61), None);
    assert!(!kb.unbind(&KeyPattern::new(sup, 0x61)));
}

#[test]
fn rule_declarations() {
    let mut mgr = WindowRuleManager::new();
    let entries = vec![
        RuleEntry {
            name: Some("audio".to_string()),
            rule: Some(RuleFields { app_id: Some("pavucontrol".to_string()), title: None, floating: Some(true), workspace: None, fullscreen: None }),
        },
        RuleEntry { name: Some("empty".to_string()), rule: None },
        RuleEntry {
            name: None,
            rule: Some(RuleFields { app_id: None, title: Some("Picture".to_string()), floating: None, workspace: Some(4), fullscreen: Some(false) }),
        },
    ];
    apply_rule_entries(&mut mgr, &entries);
    let mut w = truss::state::window::Window::new(WindowId(1), 1);
    w.app_id = Some("pavucontrol".to_string());
    w.title = Some("Picture-in-Picture".to_string());
    mgr.evaluate_and_apply(&mut w);
    assert!(w.floating);
    assert_eq!(w.workspace_id, 4);
}

#[test]
fn shells() {
    assert!(looks_like_noninteractive_shell("/usr/sbin/nologin"));
    assert!(looks_like_noninteractive_shell("/bin/false"));
    assert!(looks_like_noninteractive_shell("/bin/false/"));
    assert!(looks_like_noninteractive_shell("nologin"));
    assert!(!looks_like_noninteractive_shell("/bin/bash"));
    assert!(!looks_like_noninteractive_shell("/bin/false/.."));
    assert!(!looks_like_noninteractive_shell("/"));
    assert!(looks_like_noninteractive_shell("/usr/sbin/./nologin/."));
    assert!(shell_path_is_executable(true, 0o755));
    assert!(!shell_path_is_executable(true, 0o644));
    assert!(!shell_path_is_executable(false, 0o755));
}

#[test]
fn passwd_lines() {
    let passwd = "root:x:0:0:root:/root:/bin/bash\nalice:x:1000:1000:Alice:/home/alice: /usr/bin/zsh \r\nbob:x:1001:1001::/home/bob\n";
    assert_eq!(passwd_shell(passwd, "alice").as_deref(), Some("/usr/bin/zsh"));
    assert_eq!(passwd_shell(passwd, "root").as_deref(), Some("/bin/bash"));
    assert_eq!(passwd_shell(passwd, "bob"), None);
    assert_eq!(passwd_shell(passwd, "carol"), None);
    assert_eq!(passwd_shell("", "root"), None);
    assert_eq!(passwd_shell("al:x:1:1::/:/bin/sh", "al").as_deref(), Some("/bin/sh"));
}

#[test]
fn status_bar_line() {
    let mut s = State::new();
    let a = s.create_window(Some(2)).unwrap();
    s.windows.get_mut(&a.0).unwrap().title = Some("Editor".to_string());
    s.switch_workspace(2).unwrap();
    let line = bar_line(&s, "12:00");
    let expected = "\r\x1b[2K\x1b[1;36mtruss\x1b[0m | \x1b[1;32m 1  [2]  3   4   5   6   7   8   9   999\x1b[0m | \x1b[1;33mlayout:\x1b[0m master | \x1b[1;34mwin:\x1b[0m 1 | \x1b[1;37mEditor\x1b[0m | \x1b[1;35m12:00\x1b[0m";
    assert_eq!(line, expected);
    let empty = bar_line(&State::new(), "t");
    assert!(empty.contains("[1]"));
    assert!(empty.contains("\x1b[1;37m~\x1b[0m"));
}

#[test]
fn window_rules_move_windows_between_workspaces() {
    let mut s = State::new();
    let a = s.create_window(None).unwrap();
    let mut mgr = WindowRuleManager::new();
    let mut act = WindowRuleAction::default();
    act.open_on_workspace = Some(3);
    act.open_floating = Some(true);
    mgr.add_rule(WindowRule::new(
        "to3".to_string(),
        WindowRuleMatcher { app_id: Some("mpv".to_string()), title: None },
        act,
    ));
    s.windows.get_mut(&a.0).unwrap().app_id = Some("mpv".to_string());
    apply_window_rules(&mut s, &mgr, a);
    assert_eq!(s.windows[&a.0].workspace_id, 3);
    assert!(s.windows[&a.0].floating);
    assert_eq!(s.workspaces[&3].windows, vec![a]);
    assert!(s.workspaces[&1].windows.is_empty());
    let mut bad = WindowRuleManager::new();
    let mut act = WindowRuleAction::default();
    act.open_on_workspace = Some(77);
    bad.add_rule(WindowRule::new("nowhere".to_string(), WindowRuleMatcher { app_id: None, title: None }, act));
    apply_window_rules(&mut s, &bad, a);
    assert_eq!(s.windows[&a.0].workspace_id, 3);
    apply_window_rules(&mut s, &bad, WindowId(999));
}

#[test]
fn compositor_defaults() {
    assert_eq!(FocusMode::default(), FocusMode::Click);
    let k = KeyboardConfig::default();
    assert_eq!(k.repeat_rate, 25);
    assert_eq!(k.repeat_delay, 200);
    assert!(k.options.is_none());
    assert!(!k.numlock_by_default);
    assert!(k.layout.is_empty());
}

#[test]
fn backend_choice_follows_flag_then_terminal() {
    assert_eq!(backend_choice(Some("winit"), true), BackendChoice::Winit);
    assert_eq!(backend_choice(Some("tty"), false), BackendChoice::Tty);
    assert_eq!(backend_choice(Some("headless"), true), BackendChoice::Headless);
    assert_eq!(backend_choice(Some("auto"), true), BackendChoice::Tty);
    assert_eq!(backend_choice(None, false), BackendChoice::Winit);
    assert_eq!(backend_choice(None, true), BackendChoice::Tty);
}

#[test]
fn clock_fields_are_two_digits() {
    assert_eq!(clock_text(7, 5, 0), "07:05:00");
    assert_eq!(clock_text(23, 59, 60), "23:59:60");
    assert_eq!(epoch_text(1700000000), "1700000000 epoch");
}

fn inotify_record(wd: i32, name: &[u8], padded: usize) -> Vec<u8> {
    let mut r = Vec::new();
    r.extend_from_slice(&wd.to_le_bytes());
    r.extend_from_slice(&0x8u32.to_le_bytes());
    r.extend_from_slice(&0u32.to_le_bytes());
    r.extend_from_slice(&(padded as u32).to_le_bytes());
    r.extend_from_slice(name);
    r.resize(16 + padded, 0);
    r
}

#[test]
fn inotify_records_concerning_the_config_file() {
    let other = inotify_record(1, b"other.lua", 16);
    let ours = inotify_record(1, b"init.lua", 16);
    let own_watch = inotify_record(7, b"", 0);
    assert!(!events_concern_file(&other, b"init.lua", Some(7), true));
    let mut both = other.clone();
    both.extend_from_slice(&ours);
    assert!(events_concern_file(&both, b"init.lua", Some(7), true));
    assert!(!events_concern_file(&both, b"init", Some(7), true));
    let mut watched = other.clone();
    watched.extend_from_slice(&own_watch);
    assert!(events_concern_file(&watched, b"init.lua", Some(7), true));
    assert!(!events_concern_file(&watched, b"init.lua", Some(8), true));
    assert!(!events_concern_file(&watched, b"init.lua", None, true));
    // Read in the other byte order, the name length is huge and ends the walk.
    assert!(!events_concern_file(&both, b"init.lua", Some(7), false));
    // A header cut short is not read.
    assert!(!events_concern_file(&own_watch[..15], b"", Some(7), true));
}
