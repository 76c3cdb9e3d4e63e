use vstd::prelude::*;

use super::{command_name, Command, DispatchError, DispatchResult, Direction, Dispatcher, Event};
use crate::state::window::WindowId;
use crate::state::workspace::{next_focus_index, position_in, prev_focus_index, without, Workspace};
use crate::state::{state_error_text, State, StateError};

verus! {

/// `r` reports the outcome `sr` of a state operation: success, or the state error's text.
pub open spec fn reports<T>(r: Result<DispatchResult, DispatchError>, sr: Result<T, StateError>) -> bool {
    match sr {
        Ok(_) => r matches Ok(DispatchResult::Done),
        Err(e) => r matches Err(DispatchError::State(m)) && m@ == state_error_text(e),
    }
}

/// `r` is an invalid-parameters error with text `msg`.
pub open spec fn invalid_params(r: Result<DispatchResult, DispatchError>, msg: Seq<char>) -> bool {
    r matches Err(DispatchError::InvalidParams(m)) && m@ == msg
}

/// The dispatcher queued the events `es` and changed nothing else.
pub open spec fn emits(pre: Dispatcher, post: Dispatcher, es: Seq<Event>) -> bool {
    &&& post.events@ =~= pre.events@ + es
    &&& post.pending_closes == pre.pending_closes
    &&& post.pending_spawns == pre.pending_spawns
    &&& post.reload_requested == pre.reload_requested
    &&& post.layout_registry == pre.layout_registry
    &&& post.layout_config == pre.layout_config
}

/// The window a command addresses: the one it names, else the active workspace's focused
/// window.
pub open spec fn target_window(s: State, id: Option<WindowId>) -> Option<WindowId> {
    match id {
        Some(i) => Some(i),
        None => s.workspaces@[s.active_workspace_id].focused_window,
    }
}

/// The window a focus step in `dir` lands on (none in an empty workspace).
pub open spec fn focus_step(ws: Workspace, dir: Direction) -> Option<WindowId> {
    if ws.windows@.len() == 0 {
        None
    } else {
        match dir {
            Direction::Next => Some(ws.windows@[next_focus_index(ws.windows@, ws.focused_window)]),
            Direction::Prev => Some(ws.windows@[prev_focus_index(ws.windows@, ws.focused_window)]),
        }
    }
}

/// Whether swapping with the master moves anything: the focused window is listed after the
/// first place.
pub open spec fn swaps_master(ws: Workspace) -> bool {
    ws.windows@.len() >= 2 && match ws.focused_window {
        Some(f) => position_in(ws.windows@, f) > 0,
        None => false,
    }
}

/// The window list after the focused window traded places with the master.
pub open spec fn swapped_list(ws: Workspace) -> Seq<WindowId> {
    if swaps_master(ws) {
        let p = position_in(ws.windows@, ws.focused_window->0);
        ws.windows@.update(0, ws.windows@[p]).update(p, ws.windows@[0])
    } else {
        ws.windows@
    }
}

/// `post` differs from `pre` in the active workspace at most.
pub open spec fn only_active_workspace_changed(pre: State, post: State) -> bool {
    let a = pre.active_workspace_id;
    &&& post.workspaces@ == pre.workspaces@.insert(a, post.workspaces@[a])
    &&& post.windows == pre.windows
    &&& post.active_workspace_id == a
    &&& post.previous_workspace_id == pre.previous_workspace_id
    &&& post.special_workspace_active == pre.special_workspace_active
    &&& post.focus_history == pre.focus_history
    &&& post.next_id() == pre.next_id()
}

/// Whether focusing managed window `id` changes `s`: its workspace is not the active one,
/// that workspace focuses another window, or `id` is not already the last entry of the
/// focus history, listed once.
pub open spec fn focus_changes(s: State, id: WindowId) -> bool {
    let wk = s.windows@[id.0].workspace_id;
    ||| wk != s.active_workspace_id
    ||| s.workspaces@[wk].focused_window != Some(id)
    ||| without(s.focus_history@, id).push(id) != s.focus_history@
}

/// The event announcing window `id`'s floating and fullscreen flags in `s`.
pub open spec fn state_changed(s: State, id: WindowId) -> Event {
    Event::WindowStateChanged {
        id,
        floating: s.windows@[id.0].floating,
        fullscreen: s.windows@[id.0].fullscreen,
    }
}

/// A command addressing a window that is absent: nothing happens and `Done` is answered.
pub open spec fn no_target(
    pre_d: Dispatcher,
    post_d: Dispatcher,
    pre: State,
    post: State,
    r: Result<DispatchResult, DispatchError>,
) -> bool {
    &&& r matches Ok(DispatchResult::Done)
    &&& post == pre
    &&& post_d == pre_d
}

/// A toggle of window `w` with outcome `sr` is reported, and a successful one announces the
/// window's new state.
pub open spec fn toggle_reported(
    pre_d: Dispatcher,
    post_d: Dispatcher,
    post: State,
    w: WindowId,
    sr: Result<bool, StateError>,
    r: Result<DispatchResult, DispatchError>,
) -> bool {
    &&& reports(r, sr)
    &&& emits(pre_d, post_d, if sr is Ok { seq![state_changed(post, w)] } else { seq![] })
}

/// How `dispatch` answers `cmd` and changes the dispatcher (`pre_d` to `post_d`) and the
/// state (`pre` to `post`).
pub open spec fn dispatch_outcome(
    pre_d: Dispatcher,
    post_d: Dispatcher,
    pre: State,
    post: State,
    cmd: Command,
    r: Result<DispatchResult, DispatchError>,
) -> bool {
    let a = pre.active_workspace_id;
    let active = pre.workspaces@[a];
    match cmd {
        Command::WorkspaceSwitch { id } => {
            let sr = if pre.workspaces@.contains_key(id) {
                Ok::<(), StateError>(())
            } else {
                Err(StateError::WorkspaceNotFound(id))
            };
            &&& State::switch_post(pre, post, id, sr)
            &&& reports(r, sr)
            &&& emits(
                pre_d,
                post_d,
                if sr is Ok && a != id { seq![Event::WorkspaceSwitched { id }] } else { seq![] },
            )
        },
        Command::WindowFocus { id } => {
            let sr = if pre.windows@.contains_key(id.0) {
                Ok::<(), StateError>(())
            } else {
                Err(StateError::WindowNotFound(id))
            };
            &&& State::focus_post(pre, post, id, sr)
            &&& reports(r, sr)
            &&& emits(
                pre_d,
                post_d,
                if sr is Ok && focus_changes(pre, id) { seq![Event::WindowFocused { id }] } else { seq![] },
            )
        },
        Command::WindowFocusDir { direction } => {
            let step = focus_step(active, direction);
            &&& only_active_workspace_changed(pre, post)
            &&& post.workspaces@[a] == (Workspace { focused_window: step, ..active })
            &&& r matches Ok(DispatchResult::Done)
            &&& emits(
                pre_d,
                post_d,
                match step {
                    Some(id) => if step != active.focused_window {
                        seq![Event::WindowFocused { id }]
                    } else {
                        seq![]
                    },
                    None => seq![],
                },
            )
        },
        Command::WindowSwapMaster => {
            let nw = post.workspaces@[a];
            &&& only_active_workspace_changed(pre, post)
            &&& nw.windows@ == swapped_list(active)
            &&& nw.focused_window == active.focused_window
            &&& nw.same_identity(active)
            &&& r matches Ok(DispatchResult::Done)
            &&& emits(
                pre_d,
                post_d,
                if swaps_master(active) {
                    seq![Event::WindowFocused { id: active.focused_window->0 }]
                } else {
                    seq![]
                },
            )
        },
        Command::WindowClose { id } => match target_window(pre, id) {
            None => no_target(pre_d, post_d, pre, post, r),
            Some(w) => {
                let sr = if pre.windows@.contains_key(w.0) {
                    Ok::<(), StateError>(())
                } else {
                    Err(StateError::WindowNotFound(w))
                };
                &&& State::remove_post(pre, post, w, sr)
                &&& reports(r, sr)
                &&& post_d.events@ =~= pre_d.events@ + if sr is Ok {
                    seq![Event::WindowDestroyed { id: w }]
                } else {
                    seq![]
                }
                &&& post_d.pending_closes@ =~= pre_d.pending_closes@ + if sr is Ok {
                    seq![w]
                } else {
                    seq![]
                }
                &&& post_d.pending_spawns == pre_d.pending_spawns
                &&& post_d.reload_requested == pre_d.reload_requested
                &&& post_d.layout_registry == pre_d.layout_registry
                &&& post_d.layout_config == pre_d.layout_config
            },
        },
        Command::WindowToggleFloating { id } => match target_window(pre, id) {
            None => no_target(pre_d, post_d, pre, post, r),
            Some(w) => {
                let sr = if pre.windows@.contains_key(w.0) {
                    Ok::<bool, StateError>(!pre.windows@[w.0].floating)
                } else {
                    Err(StateError::WindowNotFound(w))
                };
                &&& State::toggle_floating_post(pre, post, w, sr)
                &&& toggle_reported(pre_d, post_d, post, w, sr, r)
            },
        },
        Command::WindowToggleFullscreen { id } => match target_window(pre, id) {
            None => no_target(pre_d, post_d, pre, post, r),
            Some(w) => {
                let sr = if pre.windows@.contains_key(w.0) {
                    Ok::<bool, StateError>(!pre.windows@[w.0].fullscreen)
                } else {
                    Err(StateError::WindowNotFound(w))
                };
                &&& State::toggle_fullscreen_post(pre, post, w, sr)
                &&& toggle_reported(pre_d, post_d, post, w, sr, r)
            },
        },
        Command::Spawn { command } => {
            &&& r matches Ok(DispatchResult::Done)
            &&& post == pre
            &&& post_d.pending_spawns@ == pre_d.pending_spawns@.push(command)
            &&& post_d.events == pre_d.events
            &&& post_d.pending_closes == pre_d.pending_closes
            &&& post_d.reload_requested == pre_d.reload_requested
            &&& post_d.layout_registry == pre_d.layout_registry
            &&& post_d.layout_config == pre_d.layout_config
        },
        Command::WindowMoveToWorkspace { window_id, workspace_id } => match target_window(
            pre,
            window_id,
        ) {
            None => {
                &&& invalid_params(r, "No focused window to move"@)
                &&& post == pre
                &&& post_d == pre_d
            },
            Some(w) => {
                let sr = if !pre.workspaces@.contains_key(workspace_id) {
                    Err(StateError::WorkspaceNotFound(workspace_id))
                } else if !pre.windows@.contains_key(w.0) {
                    Err(StateError::WindowNotFound(w))
                } else {
                    Ok::<(), StateError>(())
                };
                &&& State::move_post(pre, post, w, workspace_id, sr)
                &&& reports(r, sr)
                &&& emits(
                    pre_d,
                    post_d,
                    if sr is Ok && pre.windows@[w.0].workspace_id != workspace_id {
                        seq![Event::WindowMovedWorkspace { id: w, workspace_id }]
                    } else {
                        seq![]
                    },
                )
            },
        },
        Command::LayoutSet { layout } => if !pre_d.layout_registry.knows(layout@) {
            &&& invalid_params(r, "Unknown layout '"@ + layout@ + "'"@)
            &&& post == pre
            &&& post_d == pre_d
        } else {
            let nw = post.workspaces@[a];
            &&& only_active_workspace_changed(pre, post)
            &&& nw.layout@ == layout@
            &&& nw.windows == active.windows
            &&& nw.focused_window == active.focused_window
            &&& nw.id == active.id
            &&& nw.name == active.name
            &&& nw.output == active.output
            &&& r matches Ok(DispatchResult::Done)
            &&& emits(
                pre_d,
                post_d,
                if layout@ != active.layout@ {
                    seq![Event::LayoutChanged { workspace_id: a, layout }]
                } else {
                    seq![]
                },
            )
        },
        Command::LayoutSetGap { gap } => {
            let g: u32 = if gap < 4096 { gap } else { 4096 };
            &&& r matches Ok(DispatchResult::Done)
            &&& post == pre
            &&& post_d.layout_config == (crate::layout::LayoutConfig { gap: g, ..pre_d.layout_config })
            &&& post_d.events@ =~= pre_d.events@ + if g != pre_d.layout_config.gap {
                seq![Event::LayoutConfigChanged { gap: Some(g), master_ratio: None }]
            } else {
                seq![]
            }
            &&& post_d.pending_closes == pre_d.pending_closes
            &&& post_d.pending_spawns == pre_d.pending_spawns
            &&& post_d.reload_requested == pre_d.reload_requested
            &&& post_d.layout_registry == pre_d.layout_registry
        },
        Command::LayoutSetRatio { ratio } => match ratio {
            None => {
                &&& invalid_params(r, "Master ratio must be a finite number"@)
                &&& post == pre
                &&& post_d == pre_d
            },
            Some(v) => {
                let c: u32 = if v < 1000 { 1000 } else if v > 9000 { 9000 } else { v as u32 };
                &&& r matches Ok(DispatchResult::Done)
                &&& post == pre
                &&& post_d.layout_config == (crate::layout::LayoutConfig {
                    master_ratio: c,
                    ..pre_d.layout_config
                })
                &&& post_d.events@ =~= pre_d.events@ + if c != pre_d.layout_config.master_ratio {
                    seq![Event::LayoutConfigChanged { gap: None, master_ratio: Some(c) }]
                } else {
                    seq![]
                }
                &&& post_d.pending_closes == pre_d.pending_closes
                &&& post_d.pending_spawns == pre_d.pending_spawns
                &&& post_d.reload_requested == pre_d.reload_requested
                &&& post_d.layout_registry == pre_d.layout_registry
            },
        },
        Command::ConfigReload => {
            &&& r matches Ok(DispatchResult::Done)
            &&& post == pre
            &&& post_d.reload_requested
            &&& post_d.events == pre_d.events
            &&& post_d.pending_closes == pre_d.pending_closes
            &&& post_d.pending_spawns == pre_d.pending_spawns
            &&& post_d.layout_registry == pre_d.layout_registry
            &&& post_d.layout_config == pre_d.layout_config
        },
        Command::StateGet => {
            &&& r matches Ok(DispatchResult::State(s)) && s.same_as(&pre)
            &&& post == pre
            &&& post_d == pre_d
        },
        Command::CompositorQuit => {
            &&& r matches Ok(DispatchResult::Quitting)
            &&& post == pre
            &&& emits(pre_d, post_d, seq![Event::CompositorQuitting])
        },
        _ => {
            &&& r matches Err(DispatchError::UnknownCommand(m)) && m@ == command_name(cmd)
            &&& post == pre
            &&& post_d == pre_d
        },
    }
}

} // verus!
