use vstd::prelude::*;

use crate::state::window::{Rect, Window, WindowId};
use crate::state::State;

verus! {

/// Target currently under the cursor.
#[derive(Debug, Clone, Copy, PartialEq, Eq, Structural)]
pub enum PointerFocusTarget {
    Window(WindowId),
    Background,
}

/// Whether `(px, py)` lies in `r`, the extent taken as a signed coordinate
/// (`x <= px < x + width as i32`, likewise vertically).
pub open spec fn hits(r: Rect, px: int, py: int) -> bool {
    &&& r.x <= px < r.x + (r.width as i32)
    &&& r.y <= py < r.y + (r.height as i32)
}

/// The top-most window of `ids` (the last listed) that is managed and whose geometry holds
/// the point.
pub open spec fn topmost_at(ids: Seq<WindowId>, m: Map<u64, Window>, px: int, py: int) -> Option<WindowId>
    decreases ids.len(),
{
    if ids.len() == 0 {
        None
    } else if m.contains_key(ids.last().0) && hits(m[ids.last().0].geometry, px, py) {
        Some(ids.last())
    } else {
        topmost_at(ids.drop_last(), m, px, py)
    }
}

/// Whether `(px, py)` lies in `r` (see `hits`).
pub fn point_hits(r: &Rect, px: i32, py: i32) -> (b: bool)
    ensures
        b == hits(*r, px as int, py as int),
{
    let right: i64 = r.x as i64 + (r.width as i32) as i64;
    let bottom: i64 = r.y as i64 + (r.height as i32) as i64;
    r.x <= px && (px as i64) < right && r.y <= py && (py as i64) < bottom
}

/// The window under the point `(px, py)` on the active workspace: the top-most one (the
/// last in stacking order) whose geometry holds the point, else the background.
pub fn find_target_at(px: i32, py: i32, state: &State) -> (t: PointerFocusTarget)
    requires
        state.workspaces@.contains_key(state.active_workspace_id),
    ensures
        t == match topmost_at(
            state.workspaces@[state.active_workspace_id].windows@,
            state.windows@,
            px as int,
            py as int,
        ) {
            Some(w) => PointerFocusTarget::Window(w),
            None => PointerFocusTarget::Background,
        },
{
    let ws = state.active_workspace();
    let ghost ids = ws.windows@;
    let mut i: usize = ws.windows.len();
    assert(ids.take(i as int) =~= ids);
    while i > 0
        invariant
            i <= ids.len(),
            ids == ws.windows@,
            ids == state.workspaces@[state.active_workspace_id].windows@,
            topmost_at(ids, state.windows@, px as int, py as int) == topmost_at(
                ids.take(i as int),
                state.windows@,
                px as int,
                py as int,
            ),
        decreases i,
    {
        let win_id = ws.windows[i - 1];
        let ghost prefix = ids.take(i as int);
        assert(prefix.last() == win_id);
        assert(prefix.drop_last() =~= ids.take(i - 1));
        match state.windows.get(&win_id.0) {
            Some(win) => {
                if point_hits(&win.geometry, px, py) {
                    return PointerFocusTarget::Window(win_id);
                }
            },
            None => {},
        }
        i = i - 1;
    }
    assert(ids.take(0) =~= Seq::<WindowId>::empty());
    PointerFocusTarget::Background
}

/// The pointer drag in progress, if any.
#[derive(Debug, Clone, Copy, PartialEq, Eq, Structural)]
pub enum PointerDragMode {
    Idle,
    /// Moving a window; the offsets are those of the pointer from the window's origin when
    /// the drag started.
    Move { window_id: WindowId, offset_x: i64, offset_y: i64 },
    /// Resizing a window from its bottom-right corner; `start` is its geometry and
    /// `(start_x, start_y)` the pointer when the drag started.
    Resize { window_id: WindowId, start: Rect, start_x: i32, start_y: i32 },
}

/// `v` clamped to the range of `i32`.
pub open spec fn clamp_i32(v: int) -> i32 {
    if v < i32::MIN {
        i32::MIN
    } else if v > i32::MAX {
        i32::MAX
    } else {
        v as i32
    }
}

/// A window extent: `v` clamped to at least 1 and at most `u32::MAX`.
pub open spec fn clamp_extent(v: int) -> u32 {
    if v < 1 {
        1
    } else if v > u32::MAX {
        u32::MAX
    } else {
        v as u32
    }
}

/// The geometry a drag gives a window of geometry `g` with the pointer at `(px, py)`: a move
/// keeps the pointer where it grabbed the window, a resize grows the window by how far the
/// pointer travelled.
pub open spec fn dragged_geometry(mode: PointerDragMode, g: Rect, px: int, py: int) -> Rect {
    match mode {
        PointerDragMode::Idle => g,
        PointerDragMode::Move { offset_x, offset_y, .. } => Rect {
            x: clamp_i32(px - offset_x),
            y: clamp_i32(py - offset_y),
            ..g
        },
        PointerDragMode::Resize { start, start_x, start_y, .. } => Rect {
            width: clamp_extent(start.width + (px - start_x)),
            height: clamp_extent(start.height + (py - start_y)),
            ..g
        },
    }
}

/// The drag started on a window of geometry `g` with the pointer at `(px, py)`.
pub open spec fn drag_for(id: WindowId, g: Rect, resize: bool, px: int, py: int) -> PointerDragMode {
    if resize {
        PointerDragMode::Resize { window_id: id, start: g, start_x: px as i32, start_y: py as i32 }
    } else {
        PointerDragMode::Move { window_id: id, offset_x: (px - g.x) as i64, offset_y: (py - g.y) as i64 }
    }
}

fn clamped_i32(v: i64) -> (r: i32)
    ensures
        r == clamp_i32(v as int),
{
    if v < -2147483648i64 {
        -2147483648i32
    } else if v > 2147483647i64 {
        2147483647i32
    } else {
        v as i32
    }
}

fn clamped_extent(v: i64) -> (r: u32)
    ensures
        r == clamp_extent(v as int),
{
    if v < 1 {
        1
    } else if v > 4294967295i64 {
        4294967295u32
    } else {
        v as u32
    }
}

fn drag_geometry(mode: PointerDragMode, g: Rect, px: i32, py: i32) -> (r: Rect)
    ensures
        r == dragged_geometry(mode, g, px as int, py as int),
{
    match mode {
        PointerDragMode::Idle => g,
        PointerDragMode::Move { offset_x, offset_y, .. } => {
            // |offset| < 2^33 as it came from two i32 values.
            let x = if offset_x > 0x1_0000_0000 || offset_x < -0x1_0000_0000 {
                if offset_x > 0 { i32::MIN } else { i32::MAX }
            } else {
                clamped_i32(px as i64 - offset_x)
            };
            let y = if offset_y > 0x1_0000_0000 || offset_y < -0x1_0000_0000 {
                if offset_y > 0 { i32::MIN } else { i32::MAX }
            } else {
                clamped_i32(py as i64 - offset_y)
            };
            Rect { x, y, ..g }
        },
        PointerDragMode::Resize { start, start_x, start_y, .. } => {
            let w = clamped_extent(start.width as i64 + (px as i64 - start_x as i64));
            let h = clamped_extent(start.height as i64 + (py as i64 - start_y as i64));
            Rect { width: w, height: h, ..g }
        },
    }
}

/// Starts dragging window `id` (moving it, or resizing it when `resize`) with the pointer at
/// `(px, py)`: the window floats from then on. An unmanaged window starts no drag.
pub fn start_drag(state: &mut State, id: WindowId, resize: bool, px: i32, py: i32) -> (mode: PointerDragMode)
    requires
        old(state).wf(),
    ensures
        !old(state).windows@.contains_key(id.0) ==> mode == PointerDragMode::Idle && *final(state) == *old(state),
        old(state).windows@.contains_key(id.0) ==> {
            let w = old(state).windows@[id.0];
            &&& mode == drag_for(id, w.geometry, resize, px as int, py as int)
            &&& State::window_edit_post(*old(state), *final(state), id, (Window { floating: true, ..w }), Ok(()))
        },
        final(state).wf(),
{
    let (g, floating) = match state.windows.get(&id.0) {
        Some(w) => (w.geometry, w.floating),
        None => return PointerDragMode::Idle,
    };
    let ghost pre = *state;
    if !floating {
        let _ = state.toggle_floating(id);
        assert(pre.windows@[id.0] == (Window { floating: false, ..pre.windows@[id.0] }));
    } else {
        assert(state.windows@ =~= pre.windows@.insert(id.0, pre.windows@[id.0]));
        assert(pre.windows@[id.0] == (Window { floating: true, ..pre.windows@[id.0] }));
    }
    if resize {
        PointerDragMode::Resize { window_id: id, start: g, start_x: px, start_y: py }
    } else {
        PointerDragMode::Move { window_id: id, offset_x: px as i64 - g.x as i64, offset_y: py as i64 - g.y as i64 }
    }
}

/// Moves or resizes the dragged window for the pointer at `(px, py)` (see
/// `dragged_geometry`); with no drag, or a window gone, nothing changes.
pub fn update_drag(state: &mut State, mode: PointerDragMode, px: i32, py: i32)
    requires
        old(state).wf(),
    ensures
        match mode {
            PointerDragMode::Idle => *final(state) == *old(state),
            PointerDragMode::Move { window_id, .. } | PointerDragMode::Resize { window_id, .. } => {
                if old(state).windows@.contains_key(window_id.0) {
                    State::set_geometry_post(
                        *old(state),
                        *final(state),
                        window_id,
                        dragged_geometry(mode, old(state).windows@[window_id.0].geometry, px as int, py as int),
                        Ok(()),
                    )
                } else {
                    *final(state) == *old(state)
                }
            },
        },
        final(state).wf(),
{
    let id = match mode {
        PointerDragMode::Idle => return,
        PointerDragMode::Move { window_id, .. } => window_id,
        PointerDragMode::Resize { window_id, .. } => window_id,
    };
    let g = match state.windows.get(&id.0) {
        Some(w) => w.geometry,
        None => return,
    };
    let r = drag_geometry(mode, g, px, py);
    let _ = state.set_window_geometry(id, r);
}

/// Evdev code of the left mouse button.
pub const BUTTON_LEFT: u32 = 0x110;
/// Evdev code of the right mouse button.
pub const BUTTON_RIGHT: u32 = 0x111;

/// What a pointer button event does.
#[derive(Debug, Clone, Copy, PartialEq, Eq, Structural)]
pub enum ButtonResponse {
    /// A release: the drag in progress ends, and the release goes on to the client.
    Release,
    /// A press over a window: it is focused; with Super held, the left button starts moving
    /// it and the right one resizing it (`drag`), and the press does not reach the client.
    Window { id: WindowId, drag: Option<bool>, forward: bool },
    /// A press over the background: the focus is cleared and the press goes on.
    Background,
}

/// The response to a button event over `target` (`drag` is `Some(resize)` when a drag
/// starts).
pub open spec fn button_response_of(target: PointerFocusTarget, pressed: bool, logo: bool, button: u32) -> ButtonResponse {
    if !pressed {
        ButtonResponse::Release
    } else {
        match target {
            PointerFocusTarget::Window(id) => ButtonResponse::Window {
                id,
                drag: if logo && button == BUTTON_LEFT {
                    Some(false)
                } else if logo && button == BUTTON_RIGHT {
                    Some(true)
                } else {
                    None
                },
                forward: !logo,
            },
            PointerFocusTarget::Background => ButtonResponse::Background,
        }
    }
}

/// Decides what a pointer button event does (see `button_response_of`).
pub fn button_response(target: PointerFocusTarget, pressed: bool, logo: bool, button: u32) -> (r: ButtonResponse)
    ensures
        r == button_response_of(target, pressed, logo, button),
{
    if !pressed {
        return ButtonResponse::Release;
    }
    match target {
        PointerFocusTarget::Window(id) => {
            let drag = if logo && button == BUTTON_LEFT {
                Some(false)
            } else if logo && button == BUTTON_RIGHT {
                Some(true)
            } else {
                None
            };
            ButtonResponse::Window { id, drag, forward: !logo }
        },
        PointerFocusTarget::Background => ButtonResponse::Background,
    }
}

} // verus!
