use vstd::prelude::*;

use crate::layout::signed;
use crate::state::window::{Rect, Window, WindowId};
use crate::state::workspace::contains_window;
use crate::state::{State, SPECIAL_WORKSPACE_ID};

verus! {

/// The stacking bands of the active workspace's windows: fullscreen windows above
/// everything, floating windows above tiled ones.
#[derive(Debug, Clone, Copy, PartialEq, Eq, Structural)]
pub enum Band {
    Fullscreen,
    Floating,
    Tiled,
}

/// Whether a window belongs to a band.
pub open spec fn in_band(w: Window, b: Band) -> bool {
    match b {
        Band::Fullscreen => w.fullscreen,
        Band::Floating => w.floating && !w.fullscreen,
        Band::Tiled => !w.floating && !w.fullscreen,
    }
}

/// The managed windows of `ids` in band `b`, in list order.
pub open spec fn band_members(ids: Seq<WindowId>, m: Map<u64, Window>, b: Band) -> Seq<WindowId>
    decreases ids.len(),
{
    if ids.len() == 0 {
        Seq::empty()
    } else {
        let rest = band_members(ids.drop_last(), m, b);
        if m.contains_key(ids.last().0) && in_band(m[ids.last().0], b) {
            rest.push(ids.last())
        } else {
            rest
        }
    }
}

/// The managed windows of `ids` in band `b`, the last listed (top-most) first.
pub open spec fn band_members_topmost_first(ids: Seq<WindowId>, m: Map<u64, Window>, b: Band) -> Seq<WindowId>
    decreases ids.len(),
{
    if ids.len() == 0 {
        Seq::empty()
    } else {
        let rest = band_members_topmost_first(ids.drop_last(), m, b);
        if m.contains_key(ids.last().0) && in_band(m[ids.last().0], b) {
            seq![ids.last()] + rest
        } else {
            rest
        }
    }
}

/// The active workspace's windows of a band: in list order (the order tiled windows are
/// drawn in), or top-most first (the order in which they are hit-tested, and in which
/// fullscreen and floating windows are drawn).
pub fn band_windows(state: &State, band: Band, topmost_first: bool) -> (r: Vec<WindowId>)
    requires
        state.workspaces@.contains_key(state.active_workspace_id),
    ensures
        r@ == if topmost_first {
            band_members_topmost_first(
                state.workspaces@[state.active_workspace_id].windows@,
                state.windows@,
                band,
            )
        } else {
            band_members(state.workspaces@[state.active_workspace_id].windows@, state.windows@, band)
        },
{
    let ws = state.active_workspace();
    let ghost ids = ws.windows@;
    let mut r: Vec<WindowId> = Vec::new();
    let mut i: usize = 0;
    while i < ws.windows.len()
        invariant
            ids == ws.windows@,
            i <= ids.len(),
            r@ == if topmost_first {
                band_members_topmost_first(ids.take(i as int), state.windows@, band)
            } else {
                band_members(ids.take(i as int), state.windows@, band)
            },
        decreases ids.len() - i,
    {
        let w = ws.windows[i];
        proof {
            assert(ids.take(i + 1).drop_last() =~= ids.take(i as int));
            assert(ids.take(i + 1).last() == w);
        }
        let member = match state.windows.get(&w.0) {
            Some(win) => match band {
                Band::Fullscreen => win.fullscreen,
                Band::Floating => win.floating && !win.fullscreen,
                Band::Tiled => !win.floating && !win.fullscreen,
            },
            None => false,
        };
        if member {
            if topmost_first {
                r.insert(0, w);
                assert(r@ =~= seq![w] + band_members_topmost_first(ids.take(i as int), state.windows@, band));
            } else {
                r.push(w);
            }
        }
        i = i + 1;
    }
    assert(ids.take(ids.len() as int) =~= ids);
    r
}

/// One step of the front-to-back order of a frame or of a hit test.
#[derive(Debug, Clone, Copy, PartialEq, Eq, Structural)]
pub enum SceneStep {
    /// A window of the active workspace.
    Window(WindowId),
    /// The overlay and top layer surfaces of every output.
    UpperLayers,
    /// Layer surfaces mapped on no output (drawn at the origin; never hit).
    UnmappedLayers,
    /// The bottom and background layer surfaces of every output.
    LowerLayers,
}

/// The windows of `ids`, each as a step.
pub open spec fn window_steps(ids: Seq<WindowId>) -> Seq<SceneStep> {
    ids.map_values(|id: WindowId| SceneStep::Window(id))
}

/// The front-to-back order of `s`'s scene: fullscreen windows (top-most first), the upper
/// layers, then, when drawing, the unmapped layers, floating windows (top-most first), tiled
/// windows (in list order when drawing, top-most first when hit-testing) and the lower
/// layers.
pub open spec fn stacking_of(s: State, drawing: bool) -> Seq<SceneStep> {
    let ids = s.workspaces@[s.active_workspace_id].windows@;
    let m = s.windows@;
    window_steps(band_members_topmost_first(ids, m, Band::Fullscreen))
        + seq![SceneStep::UpperLayers]
        + (if drawing { seq![SceneStep::UnmappedLayers] } else { Seq::empty() })
        + window_steps(band_members_topmost_first(ids, m, Band::Floating))
        + window_steps(
        if drawing {
            band_members(ids, m, Band::Tiled)
        } else {
            band_members_topmost_first(ids, m, Band::Tiled)
        },
    ) + seq![SceneStep::LowerLayers]
}

fn push_windows(steps: &mut Vec<SceneStep>, ids: Vec<WindowId>)
    ensures
        final(steps)@ == old(steps)@ + window_steps(ids@),
{
    let ghost start = steps@;
    let mut i: usize = 0;
    while i < ids.len()
        invariant
            i <= ids@.len(),
            steps@ == start + window_steps(ids@.take(i as int)),
        decreases ids@.len() - i,
    {
        steps.push(SceneStep::Window(ids[i]));
        proof {
            assert(window_steps(ids@.take(i + 1)) =~= window_steps(ids@.take(i as int)).push(
                SceneStep::Window(ids@[i as int]),
            ));
        }
        i = i + 1;
    }
    proof {
        assert(ids@.take(ids@.len() as int) =~= ids@);
    }
}

/// The front-to-back order in which a frame is drawn (`drawing`) or a point is hit-tested
/// (see `stacking_of`).
pub fn stacking_order(state: &State, drawing: bool) -> (r: Vec<SceneStep>)
    requires
        state.workspaces@.contains_key(state.active_workspace_id),
    ensures
        r@ == stacking_of(*state, drawing),
{
    let mut steps: Vec<SceneStep> = Vec::new();
    push_windows(&mut steps, band_windows(state, Band::Fullscreen, true));
    steps.push(SceneStep::UpperLayers);
    if drawing {
        steps.push(SceneStep::UnmappedLayers);
    }
    push_windows(&mut steps, band_windows(state, Band::Floating, true));
    push_windows(&mut steps, band_windows(state, Band::Tiled, !drawing));
    steps.push(SceneStep::LowerLayers);
    assert(steps@ =~= stacking_of(*state, drawing));
    steps
}

/// A border piece: position and size, in compositor coordinates.
#[derive(Debug, Clone, Copy, PartialEq, Eq, Structural)]
pub struct BorderPiece {
    pub x: i64,
    pub y: i64,
    pub width: i64,
    pub height: i64,
}

/// The four pieces (top, bottom, left, right) of a border `bw` wide around a window of
/// geometry `g`, extents taken as signed coordinates; fullscreen windows and zero-width
/// borders have none.
pub open spec fn border_of(g: Rect, fullscreen: bool, bw: u32) -> Seq<BorderPiece> {
    let b = signed(bw);
    let w = signed(g.width);
    let h = signed(g.height);
    if bw == 0 || fullscreen {
        Seq::empty()
    } else {
        seq![
            BorderPiece { x: (g.x - b) as i64, y: (g.y - b) as i64, width: (w + 2 * b) as i64, height: b as i64 },
            BorderPiece { x: (g.x - b) as i64, y: (g.y + h) as i64, width: (w + 2 * b) as i64, height: b as i64 },
            BorderPiece { x: (g.x - b) as i64, y: g.y as i64, width: b as i64, height: h as i64 },
            BorderPiece { x: (g.x + w) as i64, y: g.y as i64, width: b as i64, height: h as i64 },
        ]
    }
}

/// The border pieces drawn around a window (see `border_of`).
pub fn border_pieces(geometry: Rect, fullscreen: bool, border_width: u32) -> (r: Vec<BorderPiece>)
    ensures
        r@ == border_of(geometry, fullscreen, border_width),
{
    if border_width == 0 || fullscreen {
        return Vec::new();
    }
    let b = (border_width as i32) as i64;
    let w = (geometry.width as i32) as i64;
    let h = (geometry.height as i32) as i64;
    let x = geometry.x as i64;
    let y = geometry.y as i64;
    let mut r: Vec<BorderPiece> = Vec::new();
    r.push(BorderPiece { x: x - b, y: y - b, width: w + 2 * b, height: b });
    r.push(BorderPiece { x: x - b, y: y + h, width: w + 2 * b, height: b });
    r.push(BorderPiece { x: x - b, y, width: b, height: h });
    r.push(BorderPiece { x: x + w, y, width: b, height: h });
    assert(r@ =~= border_of(geometry, fullscreen, border_width));
    r
}

/// Whether window `w` of `ids` (at position `i`) shows while its group is represented by an
/// earlier window: it is grouped, not the focused window, and an earlier managed window of
/// `ids` is in the same group.
pub open spec fn hidden_by_group(ids: Seq<WindowId>, m: Map<u64, Window>, focused: Option<WindowId>, i: int) -> bool {
    let w = ids[i];
    &&& m.contains_key(w.0)
    &&& m[w.0].group_id is Some
    &&& Some(w) != focused
    &&& exists|j: int|
        0 <= j < i && m.contains_key(ids[j].0) && #[trigger] m[ids[j].0].group_id == m[w.0].group_id
}

/// The windows of `ids` that show: one window per group (the focused one, plus the first
/// listed of the group), every ungrouped one.
pub open spec fn group_visible(ids: Seq<WindowId>, m: Map<u64, Window>, focused: Option<WindowId>) -> Seq<WindowId>
    decreases ids.len(),
{
    if ids.len() == 0 {
        Seq::empty()
    } else {
        let rest = group_visible(ids.drop_last(), m, focused);
        if hidden_by_group(ids, m, focused, ids.len() - 1) {
            rest
        } else {
            rest.push(ids.last())
        }
    }
}

/// `base` with each window of `extra` that it lacks added at the end, in order.
pub open spec fn append_missing(base: Seq<WindowId>, extra: Seq<WindowId>) -> Seq<WindowId>
    decreases extra.len(),
{
    if extra.len() == 0 {
        base
    } else {
        let prev = append_missing(base, extra.drop_last());
        if prev.contains(extra.last()) {
            prev
        } else {
            prev.push(extra.last())
        }
    }
}

/// The pinned windows, by increasing number, of the windows numbered `keys`.
pub open spec fn pinned_of(keys: Seq<u64>, m: Map<u64, Window>) -> Seq<WindowId>
    decreases keys.len(),
{
    if keys.len() == 0 {
        Seq::empty()
    } else {
        let rest = pinned_of(keys.drop_last(), m);
        if m.contains_key(keys.last()) && m[keys.last()].pinned {
            rest.push(WindowId(keys.last()))
        } else {
            rest
        }
    }
}

/// The windows shown for state `s` (window numbers in increasing order being `keys`): the
/// active workspace's windows, one per group, then the pinned windows, then (while it is
/// shown) the special workspace's windows.
pub open spec fn shown_windows(s: State, keys: Seq<u64>) -> Seq<WindowId> {
    let ws = s.workspaces@[s.active_workspace_id];
    let base = append_missing(
        group_visible(ws.windows@, s.windows@, ws.focused_window),
        pinned_of(keys, s.windows@),
    );
    if s.special_workspace_active && s.workspaces@.contains_key(SPECIAL_WORKSPACE_ID) {
        append_missing(base, s.workspaces@[SPECIAL_WORKSPACE_ID].windows@)
    } else {
        base
    }
}

fn add_missing(v: &mut Vec<WindowId>, extra: &Vec<WindowId>)
    ensures
        final(v)@ == append_missing(old(v)@, extra@),
{
    let ghost base = v@;
    let mut i: usize = 0;
    while i < extra.len()
        invariant
            i <= extra@.len(),
            v@ == append_missing(base, extra@.take(i as int)),
        decreases extra@.len() - i,
    {
        let w = extra[i];
        proof {
            assert(extra@.take(i + 1).drop_last() =~= extra@.take(i as int));
            assert(extra@.take(i + 1).last() == w);
        }
        if !contains_window(v, w) {
            v.push(w);
        }
        i = i + 1;
    }
    assert(extra@.take(extra@.len() as int) =~= extra@);
}

fn group_of(state: &State, w: WindowId) -> (g: Option<Option<u64>>)
    ensures
        g == if state.windows@.contains_key(w.0) {
            Some(state.windows@[w.0].group_id)
        } else {
            None
        },
{
    match state.windows.get(&w.0) {
        Some(win) => Some(win.group_id),
        None => None,
    }
}

/// The windows to show (see `shown_windows`), in the order they are placed.
pub fn visible_windows(state: &State) -> (r: Vec<WindowId>)
    requires
        state.workspaces@.contains_key(state.active_workspace_id),
    ensures
        exists|keys: Seq<u64>|
            #![trigger shown_windows(*state, keys)]
            strictly_increasing_u64(keys) && (forall|k: u64|
                keys.contains(k) <==> state.windows@.contains_key(k)) && r@ == shown_windows(
                *state,
                keys,
            ),
{
    let ws = state.active_workspace();
    let focused = ws.focused_window;
    let ghost ids = ws.windows@;
    let ghost m = state.windows@;
    let mut vis: Vec<WindowId> = Vec::new();
    let mut i: usize = 0;
    while i < ws.windows.len()
        invariant
            ids == ws.windows@,
            m == state.windows@,
            focused == ws.focused_window,
            i <= ids.len(),
            vis@ == group_visible(ids.take(i as int), m, focused),
        decreases ids.len() - i,
    {
        let w = ws.windows[i];
        let ghost prefix = ids.take(i + 1);
        proof {
            assert(prefix.drop_last() =~= ids.take(i as int));
            assert(prefix.last() == w);
        }
        let hidden = match group_of(state, w) {
            Some(Some(gid)) => {
                if is_focused(focused, w) {
                    false
                } else {
                    let mut earlier = false;
                    let mut j: usize = 0;
                    while j < i
                        invariant
                            ids == ws.windows@,
                            m == state.windows@,
                            j <= i < ids.len(),
                            earlier == exists|k: int|
                                0 <= k < j && m.contains_key(ids[k].0) && #[trigger] m[ids[k].0].group_id == Some(gid),
                        decreases i - j,
                    {
                        let other = ws.windows[j];
                        if let Some(og) = group_of(state, other) {
                            if og == Some(gid) {
                                earlier = true;
                            }
                        }
                        proof {
                            if earlier && !(exists|k: int|
                                0 <= k < j && m.contains_key(ids[k].0) && #[trigger] m[ids[k].0].group_id == Some(gid)) {
                                assert(m.contains_key(ids[j as int].0) && m[ids[j as int].0].group_id == Some(gid));
                            }
                        }
                        j = j + 1;
                    }
                    proof {
                        if earlier {
                            let k = choose|k: int|
                                0 <= k < i && m.contains_key(ids[k].0) && #[trigger] m[ids[k].0].group_id == Some(gid);
                            assert(prefix[k] == ids[k]);
                        }
                        if hidden_by_group(prefix, m, focused, i as int) {
                            let k = choose|k: int|
                                0 <= k < i && m.contains_key(prefix[k].0) && #[trigger] m[prefix[k].0].group_id
                                    == m[w.0].group_id;
                            assert(prefix[k] == ids[k]);
                        }
                    }
                    earlier
                }
            },
            _ => false,
        };
        if !hidden {
            vis.push(w);
        }
        i = i + 1;
    }
    proof {
        assert(ids.take(ids.len() as int) =~= ids);
    }
    let keys = window_keys(state);
    let mut pinned: Vec<WindowId> = Vec::new();
    let mut k: usize = 0;
    while k < keys.len()
        invariant
            m == state.windows@,
            k <= keys@.len(),
            pinned@ == pinned_of(keys@.take(k as int), m),
        decreases keys@.len() - k,
    {
        let key = keys[k];
        proof {
            assert(keys@.take(k + 1).drop_last() =~= keys@.take(k as int));
            assert(keys@.take(k + 1).last() == key);
        }
        let pin = match state.windows.get(&key) {
            Some(win) => win.pinned,
            None => false,
        };
        if pin {
            pinned.push(WindowId(key));
        }
        k = k + 1;
    }
    proof {
        assert(keys@.take(keys@.len() as int) =~= keys@);
    }
    add_missing(&mut vis, &pinned);
    if state.special_workspace_active {
        if let Some(special) = state.workspaces.get(&SPECIAL_WORKSPACE_ID) {
            add_missing(&mut vis, &special.windows);
        }
    }
    assert(vis@ == shown_windows(*state, keys@));
    vis
}

/// Whether a window already placed stays placed: it is on the active workspace, pinned,
/// or on the special workspace while that is shown.
pub open spec fn keeps_place(s: State, id: WindowId) -> bool {
    ||| s.workspaces@[s.active_workspace_id].windows@.contains(id)
    ||| s.windows@.contains_key(id.0) && s.windows@[id.0].pinned
    ||| s.special_workspace_active && s.windows@.contains_key(id.0) && s.windows@[id.0].workspace_id
        == SPECIAL_WORKSPACE_ID
}

/// Whether a window already placed stays placed (see `keeps_place`).
pub fn stays_mapped(state: &State, id: WindowId) -> (r: bool)
    requires
        state.workspaces@.contains_key(state.active_workspace_id),
    ensures
        r == keeps_place(*state, id),
{
    let ws = state.active_workspace();
    if contains_window(&ws.windows, id) {
        return true;
    }
    match state.windows.get(&id.0) {
        Some(w) => w.pinned || (state.special_workspace_active && w.workspace_id == SPECIAL_WORKSPACE_ID),
        None => false,
    }
}

/// What a window's client is told to show: whether it is the active window, fullscreen, its
/// size (for windows on the active workspace), and whether it is tiled.
#[derive(Debug, Clone, Copy, PartialEq, Eq)]
pub struct ConfigureTarget {
    pub activated: bool,
    pub fullscreen: bool,
    /// Width and height, as signed values; none for windows off the active workspace, whose
    /// size is left as it was.
    pub size: Option<(i32, i32)>,
    pub tiled: bool,
}

/// The configuration window `id` of `s` is given.
pub open spec fn configure_of(s: State, id: WindowId) -> ConfigureTarget {
    let w = s.windows@[id.0];
    let on_active = w.workspace_id == s.active_workspace_id;
    ConfigureTarget {
        activated: on_active && s.workspaces@[s.active_workspace_id].focused_window == Some(id),
        fullscreen: w.fullscreen,
        size: if on_active {
            Some((w.geometry.width as i32, w.geometry.height as i32))
        } else {
            None
        },
        tiled: on_active && !w.floating,
    }
}

/// The configuration a managed window's client is given (see `configure_of`).
pub fn configure_target(state: &State, id: WindowId) -> (r: Option<ConfigureTarget>)
    requires
        state.workspaces@.contains_key(state.active_workspace_id),
    ensures
        r == if state.windows@.contains_key(id.0) {
            Some(configure_of(*state, id))
        } else {
            None
        },
{
    let focused = state.active_workspace().focused_window;
    match state.windows.get(&id.0) {
        Some(w) => {
            let on_active = w.workspace_id == state.active_workspace_id;
            Some(
                ConfigureTarget {
                    activated: on_active && is_focused(focused, id),
                    fullscreen: w.fullscreen,
                    size: if on_active {
                        Some((w.geometry.width as i32, w.geometry.height as i32))
                    } else {
                        None
                    },
                    tiled: on_active && !w.floating,
                },
            )
        },
        None => None,
    }
}

fn is_focused(focused: Option<WindowId>, w: WindowId) -> (r: bool)
    ensures
        r == (focused == Some(w)),
{
    match focused {
        Some(f) => f == w,
        None => false,
    }
}

/// What a client's pending configuration holds: its size, and whether it is shown
/// activated, fullscreen and tiled (any tiled edge).
#[derive(Debug, Clone, Copy, PartialEq, Eq)]
pub struct PendingConfigure {
    pub size: Option<(i32, i32)>,
    pub activated: bool,
    pub fullscreen: bool,
    pub tiled: bool,
}

/// A client's pending configuration after a target was applied: the new configuration,
/// whether its size changed (the window joins a resize transaction), and whether anything
/// changed (the client is sent a configure).
#[derive(Debug, Clone, Copy, PartialEq, Eq)]
pub struct ConfigureUpdate {
    pub pending: PendingConfigure,
    pub resized: bool,
    pub changed: bool,
}

/// `old` after `t` was applied: the target's states, and its size where it gives one.
pub open spec fn applied_configure(old: PendingConfigure, t: ConfigureTarget) -> PendingConfigure {
    PendingConfigure {
        size: if t.size is Some { t.size } else { old.size },
        activated: t.activated,
        fullscreen: t.fullscreen,
        tiled: t.tiled,
    }
}

/// The update of `old` by target `t` (see `ConfigureUpdate`).
pub open spec fn configure_update_of(old: PendingConfigure, t: ConfigureTarget) -> ConfigureUpdate {
    let new = applied_configure(old, t);
    ConfigureUpdate {
        pending: new,
        resized: t.size is Some && old.size != t.size,
        changed: new.size != old.size || new.activated != old.activated || new.fullscreen
            != old.fullscreen || new.tiled != old.tiled,
    }
}

fn same_size(a: Option<(i32, i32)>, b: Option<(i32, i32)>) -> (r: bool)
    ensures
        r == (a == b),
{
    match (a, b) {
        (Some(x), Some(y)) => x.0 == y.0 && x.1 == y.1,
        (None, None) => true,
        _ => false,
    }
}

/// Applies target `t` to a client's pending configuration `old` and says what changed.
pub fn configure_update(old: PendingConfigure, t: ConfigureTarget) -> (r: ConfigureUpdate)
    ensures
        r == configure_update_of(old, t),
{
    let size = match t.size {
        Some(s) => Some(s),
        None => old.size,
    };
    let pending = PendingConfigure {
        size,
        activated: t.activated,
        fullscreen: t.fullscreen,
        tiled: t.tiled,
    };
    let resized = match t.size {
        Some(_) => !same_size(old.size, t.size),
        None => false,
    };
    let changed = !same_size(size, old.size) || t.activated != old.activated || t.fullscreen
        != old.fullscreen || t.tiled != old.tiled;
    ConfigureUpdate { pending, resized, changed }
}

/// The updates of the clients listed in `current` (window, pending configuration) whose
/// windows `s` manages, in list order.
pub open spec fn configure_updates_of(s: State, current: Seq<(WindowId, PendingConfigure)>) -> Seq<(WindowId, ConfigureUpdate)>
    decreases current.len(),
{
    if current.len() == 0 {
        Seq::empty()
    } else {
        let rest = configure_updates_of(s, current.drop_last());
        let (id, old) = current.last();
        if s.windows@.contains_key(id.0) {
            rest.push((id, configure_update_of(old, configure_of(s, id))))
        } else {
            rest
        }
    }
}

/// The windows of `updates` whose size changed, in order.
pub open spec fn resized_of(updates: Seq<(WindowId, ConfigureUpdate)>) -> Seq<WindowId>
    decreases updates.len(),
{
    if updates.len() == 0 {
        Seq::empty()
    } else {
        let rest = resized_of(updates.drop_last());
        if updates.last().1.resized {
            rest.push(updates.last().0)
        } else {
            rest
        }
    }
}

/// One configure pass: the update of each listed client whose window is managed, and the
/// windows whose size changed (the windows a resize transaction waits for).
pub fn configure_pass(state: &State, current: &[(WindowId, PendingConfigure)]) -> (r: (
    Vec<(WindowId, ConfigureUpdate)>,
    Vec<WindowId>,
))
    requires
        state.workspaces@.contains_key(state.active_workspace_id),
    ensures
        r.0@ == configure_updates_of(*state, current@),
        r.1@ == resized_of(r.0@),
{
    let mut updates: Vec<(WindowId, ConfigureUpdate)> = Vec::new();
    let mut resized: Vec<WindowId> = Vec::new();
    let mut i: usize = 0;
    while i < current.len()
        invariant
            i <= current@.len(),
            state.workspaces@.contains_key(state.active_workspace_id),
            updates@ == configure_updates_of(*state, current@.take(i as int)),
            resized@ == resized_of(updates@),
        decreases current@.len() - i,
    {
        let (id, old) = current[i];
        proof {
            assert(current@.take(i + 1).drop_last() =~= current@.take(i as int));
        }
        match configure_target(state, id) {
            Some(t) => {
                let u = configure_update(old, t);
                let ghost before = updates@;
                updates.push((id, u));
                proof {
                    assert(updates@.drop_last() =~= before);
                }
                if u.resized {
                    resized.push(id);
                }
            },
            None => {},
        }
        i = i + 1;
    }
    proof {
        assert(current@.take(current@.len() as int) =~= current@);
    }
    (updates, resized)
}

/// Whether `s` lists its elements in strictly increasing order.
pub open spec fn strictly_increasing_u64(s: Seq<u64>) -> bool {
    forall|i: int, j: int| 0 <= i < j < s.len() ==> s[i] < s[j]
}

/// The window numbers of `state`, in increasing order.
fn window_keys(state: &State) -> (keys: Vec<u64>)
    ensures
        strictly_increasing_u64(keys@),
        forall|k: u64| keys@.contains(k) <==> state.windows@.contains_key(k),
{
    crate::state::keys::sorted_keys_u64(&state.windows)
}

} // verus!
