use vstd::prelude::*;

use crate::state::window::WindowId;

verus! {

/// Observable events delivered to all subscribers (Lua hooks, IPC clients, internal).
#[derive(Debug, PartialEq, Eq)]
pub enum Event {
    WorkspaceSwitched { id: u32 },
    WindowCreated { id: WindowId, workspace_id: u32 },
    WindowDestroyed { id: WindowId },
    WindowFocused { id: WindowId },
    WindowMovedWorkspace { id: WindowId, workspace_id: u32 },
    WindowStateChanged { id: WindowId, floating: bool, fullscreen: bool },
    LayoutChanged { workspace_id: u32, layout: String },
    /// A layout setting changed; the master ratio is in ten-thousandths.
    LayoutConfigChanged { gap: Option<u32>, master_ratio: Option<u32> },
    CompositorQuitting,
}

/// The event's wire name (its `event` tag, and the name Lua hooks register for).
pub open spec fn event_name(e: Event) -> Seq<char> {
    match e {
        Event::WorkspaceSwitched { .. } => "workspace.switched"@,
        Event::WindowCreated { .. } => "window.created"@,
        Event::WindowDestroyed { .. } => "window.destroyed"@,
        Event::WindowFocused { .. } => "window.focused"@,
        Event::WindowMovedWorkspace { .. } => "window.moved_workspace"@,
        Event::WindowStateChanged { .. } => "window.state_changed"@,
        Event::LayoutChanged { .. } => "layout.changed"@,
        Event::LayoutConfigChanged { .. } => "layout.config_changed"@,
        Event::CompositorQuitting => "compositor.quitting"@,
    }
}

impl Event {
    /// The event's wire name.
    pub fn name(&self) -> (r: &'static str)
        ensures
            r@ == event_name(*self),
    {
        match self {
            Event::WorkspaceSwitched { .. } => "workspace.switched",
            Event::WindowCreated { .. } => "window.created",
            Event::WindowDestroyed { .. } => "window.destroyed",
            Event::WindowFocused { .. } => "window.focused",
            Event::WindowMovedWorkspace { .. } => "window.moved_workspace",
            Event::WindowStateChanged { .. } => "window.state_changed",
            Event::LayoutChanged { .. } => "layout.changed",
            Event::LayoutConfigChanged { .. } => "layout.config_changed",
            Event::CompositorQuitting => "compositor.quitting",
        }
    }
}

impl Clone for Event {
    fn clone(&self) -> (r: Event)
        ensures
            r == *self,
    {
        match self {
            Event::WorkspaceSwitched { id } => Event::WorkspaceSwitched { id: *id },
            Event::WindowCreated { id, workspace_id } => Event::WindowCreated {
                id: *id,
                workspace_id: *workspace_id,
            },
            Event::WindowDestroyed { id } => Event::WindowDestroyed { id: *id },
            Event::WindowFocused { id } => Event::WindowFocused { id: *id },
            Event::WindowMovedWorkspace { id, workspace_id } => Event::WindowMovedWorkspace {
                id: *id,
                workspace_id: *workspace_id,
            },
            Event::WindowStateChanged { id, floating, fullscreen } => Event::WindowStateChanged {
                id: *id,
                floating: *floating,
                fullscreen: *fullscreen,
            },
            Event::LayoutChanged { workspace_id, layout } => Event::LayoutChanged {
                workspace_id: *workspace_id,
                layout: layout.clone(),
            },
            Event::LayoutConfigChanged { gap, master_ratio } => Event::LayoutConfigChanged {
                gap: *gap,
                master_ratio: *master_ratio,
            },
            Event::CompositorQuitting => Event::CompositorQuitting,
        }
    }
}

} // verus!
