use vstd::prelude::*;

use crate::state::window::WindowId;

verus! {

/// Focus direction within a workspace's window list.
#[derive(Debug, Clone, Copy, PartialEq, Eq, Structural)]
pub enum Direction {
    Next,
    Prev,
}

/// Strongly typed commands that can be issued to the compositor.
#[derive(Debug, PartialEq)]
pub enum Command {
    WorkspaceSwitch { id: u32 },
    WorkspaceNext,
    WorkspacePrev,
    WorkspacePrevious,
    WorkspaceToggleSpecial,
    WindowMoveToSpecial { window_id: Option<WindowId> },
    /// Zoom step, in thousandths.
    ZoomChange { delta: i64 },
    ZoomReset,
    DpmsToggle,
    WorkspaceMoveToMonitor { workspace_id: Option<u32>, monitor: String },
    GroupToggle,
    GroupNext,
    GroupPrev,
    WindowFocus { id: WindowId },
    WindowFocusDir { direction: Direction },
    WindowFocusLast,
    WindowSwapMaster,
    WindowClose { id: Option<WindowId> },
    WindowForceKill { id: Option<WindowId> },
    WindowToggleFloating { id: Option<WindowId> },
    WindowTogglePin { id: Option<WindowId> },
    WindowToggleFullscreen { id: Option<WindowId> },
    WindowToggleMaximize { id: Option<WindowId> },
    WindowMoveToWorkspace { window_id: Option<WindowId>, workspace_id: u32 },
    WindowMoveToWorkspaceSilent { window_id: Option<WindowId>, workspace_id: u32 },
    LayoutSet { layout: String },
    LayoutSetGap { gap: u32 },
    /// New master ratio in ten-thousandths; `None` stands for a ratio that is not a finite
    /// number.
    LayoutSetRatio { ratio: Option<i64> },
    Spawn { command: String },
    ConfigReload,
    StateGet,
    CompositorQuit,
}

/// The wire name of a command (its `command` tag in IPC requests).
pub open spec fn command_name(c: Command) -> Seq<char> {
    match c {
        Command::WorkspaceSwitch { .. } => "workspace.switch"@,
        Command::WorkspaceNext => "workspace.next"@,
        Command::WorkspacePrev => "workspace.prev"@,
        Command::WorkspacePrevious => "workspace.previous"@,
        Command::WorkspaceToggleSpecial => "workspace.toggle_special"@,
        Command::WindowMoveToSpecial { .. } => "window.move_to_special"@,
        Command::ZoomChange { .. } => "render.zoom_change"@,
        Command::ZoomReset => "render.zoom_reset"@,
        Command::DpmsToggle => "output.dpms_toggle"@,
        Command::WorkspaceMoveToMonitor { .. } => "workspace.move_to_monitor"@,
        Command::GroupToggle => "group.toggle"@,
        Command::GroupNext => "group.next"@,
        Command::GroupPrev => "group.prev"@,
        Command::WindowFocus { .. } => "window.focus"@,
        Command::WindowFocusDir { .. } => "window.focus_dir"@,
        Command::WindowFocusLast => "window.focus_last"@,
        Command::WindowSwapMaster => "window.swap_master"@,
        Command::WindowClose { .. } => "window.close"@,
        Command::WindowForceKill { .. } => "window.force_kill"@,
        Command::WindowToggleFloating { .. } => "window.toggle_floating"@,
        Command::WindowTogglePin { .. } => "window.toggle_pin"@,
        Command::WindowToggleFullscreen { .. } => "window.toggle_fullscreen"@,
        Command::WindowToggleMaximize { .. } => "window.toggle_maximize"@,
        Command::WindowMoveToWorkspace { .. } => "window.move_to_workspace"@,
        Command::WindowMoveToWorkspaceSilent { .. } => "window.move_to_workspace_silent"@,
        Command::LayoutSet { .. } => "layout.set"@,
        Command::LayoutSetGap { .. } => "layout.set_gap"@,
        Command::LayoutSetRatio { .. } => "layout.set_ratio"@,
        Command::Spawn { .. } => "spawn"@,
        Command::ConfigReload => "config.reload"@,
        Command::StateGet => "state.get"@,
        Command::CompositorQuit => "compositor.quit"@,
    }
}

impl Command {
    /// The command's wire name.
    pub fn name(&self) -> (r: &'static str)
        ensures
            r@ == command_name(*self),
    {
        match self {
            Command::WorkspaceSwitch { .. } => "workspace.switch",
            Command::WorkspaceNext => "workspace.next",
            Command::WorkspacePrev => "workspace.prev",
            Command::WorkspacePrevious => "workspace.previous",
            Command::WorkspaceToggleSpecial => "workspace.toggle_special",
            Command::WindowMoveToSpecial { .. } => "window.move_to_special",
            Command::ZoomChange { .. } => "render.zoom_change",
            Command::ZoomReset => "render.zoom_reset",
            Command::DpmsToggle => "output.dpms_toggle",
            Command::WorkspaceMoveToMonitor { .. } => "workspace.move_to_monitor",
            Command::GroupToggle => "group.toggle",
            Command::GroupNext => "group.next",
            Command::GroupPrev => "group.prev",
            Command::WindowFocus { .. } => "window.focus",
            Command::WindowFocusDir { .. } => "window.focus_dir",
            Command::WindowFocusLast => "window.focus_last",
            Command::WindowSwapMaster => "window.swap_master",
            Command::WindowClose { .. } => "window.close",
            Command::WindowForceKill { .. } => "window.force_kill",
            Command::WindowToggleFloating { .. } => "window.toggle_floating",
            Command::WindowTogglePin { .. } => "window.toggle_pin",
            Command::WindowToggleFullscreen { .. } => "window.toggle_fullscreen",
            Command::WindowToggleMaximize { .. } => "window.toggle_maximize",
            Command::WindowMoveToWorkspace { .. } => "window.move_to_workspace",
            Command::WindowMoveToWorkspaceSilent { .. } => "window.move_to_workspace_silent",
            Command::LayoutSet { .. } => "layout.set",
            Command::LayoutSetGap { .. } => "layout.set_gap",
            Command::LayoutSetRatio { .. } => "layout.set_ratio",
            Command::Spawn { .. } => "spawn",
            Command::ConfigReload => "config.reload",
            Command::StateGet => "state.get",
            Command::CompositorQuit => "compositor.quit",
        }
    }
}

impl Clone for Command {
    fn clone(&self) -> (r: Command)
        ensures
            r == *self,
    {
        match self {
            Command::WorkspaceSwitch { id } => Command::WorkspaceSwitch { id: *id },
            Command::WorkspaceNext => Command::WorkspaceNext,
            Command::WorkspacePrev => Command::WorkspacePrev,
            Command::WorkspacePrevious => Command::WorkspacePrevious,
            Command::WorkspaceToggleSpecial => Command::WorkspaceToggleSpecial,
            Command::WindowMoveToSpecial { window_id } => Command::WindowMoveToSpecial {
                window_id: *window_id,
            },
            Command::ZoomChange { delta } => Command::ZoomChange { delta: *delta },
            Command::ZoomReset => Command::ZoomReset,
            Command::DpmsToggle => Command::DpmsToggle,
            Command::WorkspaceMoveToMonitor { workspace_id, monitor } => {
                Command::WorkspaceMoveToMonitor { workspace_id: *workspace_id, monitor: monitor.clone() }
            },
            Command::GroupToggle => Command::GroupToggle,
            Command::GroupNext => Command::GroupNext,
            Command::GroupPrev => Command::GroupPrev,
            Command::WindowFocus { id } => Command::WindowFocus { id: *id },
            Command::WindowFocusDir { direction } => Command::WindowFocusDir { direction: *direction },
            Command::WindowFocusLast => Command::WindowFocusLast,
            Command::WindowSwapMaster => Command::WindowSwapMaster,
            Command::WindowClose { id } => Command::WindowClose { id: *id },
            Command::WindowForceKill { id } => Command::WindowForceKill { id: *id },
            Command::WindowToggleFloating { id } => Command::WindowToggleFloating { id: *id },
            Command::WindowTogglePin { id } => Command::WindowTogglePin { id: *id },
            Command::WindowToggleFullscreen { id } => Command::WindowToggleFullscreen { id: *id },
            Command::WindowToggleMaximize { id } => Command::WindowToggleMaximize { id: *id },
            Command::WindowMoveToWorkspace { window_id, workspace_id } => {
                Command::WindowMoveToWorkspace { window_id: *window_id, workspace_id: *workspace_id }
            },
            Command::WindowMoveToWorkspaceSilent { window_id, workspace_id } => {
                Command::WindowMoveToWorkspaceSilent {
                    window_id: *window_id,
                    workspace_id: *workspace_id,
                }
            },
            Command::LayoutSet { layout } => Command::LayoutSet { layout: layout.clone() },
            Command::LayoutSetGap { gap } => Command::LayoutSetGap { gap: *gap },
            Command::LayoutSetRatio { ratio } => Command::LayoutSetRatio { ratio: *ratio },
            Command::Spawn { command } => Command::Spawn { command: command.clone() },
            Command::ConfigReload => Command::ConfigReload,
            Command::StateGet => Command::StateGet,
            Command::CompositorQuit => Command::CompositorQuit,
        }
    }
}

} // verus!
