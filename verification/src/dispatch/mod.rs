use vstd::prelude::*;
use vstd::string::*;
use std::collections::BTreeMap;

pub mod command;
pub mod event;
pub mod outcome;

pub use command::{command_name, Command, Direction};
pub use event::{event_name, Event};

use crate::layout::{arrangement, layout_fits, LayoutConfig, LayoutKind, LayoutRegistry};
use crate::state::window::{Rect, Window, WindowId};
use crate::state::{is_some_window, state_error_text, State, StateError};
use crate::text::{push_str, str_equal};
use outcome::dispatch_outcome;

verus! {

/// Why a command was refused.
#[derive(Debug, Clone, PartialEq, Eq)]
pub enum DispatchError {
    /// A state operation failed; holds the state error's text.
    State(String),
    /// The dispatcher does not execute this command; holds the command's name.
    UnknownCommand(String),
    InvalidParams(String),
}

/// Text of a dispatch error, as it is reported to IPC clients.
pub open spec fn dispatch_error_text(e: DispatchError) -> Seq<char> {
    match e {
        DispatchError::State(m) => "State error: "@ + m@,
        DispatchError::UnknownCommand(m) => "Command not recognized or unsupported: "@ + m@,
        DispatchError::InvalidParams(m) => "Invalid parameters: "@ + m@,
    }
}

impl DispatchError {
    /// The dispatch error a failed state operation becomes.
    pub fn from_state_error(err: &StateError) -> (r: DispatchError)
        ensures
            r matches DispatchError::State(m) && m@ == state_error_text(*err),
    {
        DispatchError::State(err.message())
    }

    /// The error's text.
    pub fn message(&self) -> (s: String)
        ensures
            s@ == dispatch_error_text(*self),
    {
        let (prefix, detail) = match self {
            DispatchError::State(m) => ("State error: ", m),
            DispatchError::UnknownCommand(m) => ("Command not recognized or unsupported: ", m),
            DispatchError::InvalidParams(m) => ("Invalid parameters: ", m),
        };
        let mut s = String::from_str(prefix);
        push_str(&mut s, detail.as_str());
        s
    }
}

/// Result returned from executing a command.
#[derive(Debug)]
pub enum DispatchResult {
    /// The command was carried out.
    Done,
    /// A snapshot of the state (answer to `state.get`).
    State(State),
    Quitting,
}

/// Central command dispatcher: validates commands, executes them against the state, and
/// queues the events they cause.
///
/// Events, windows whose close was requested and commands to spawn are queued rather than
/// acted on here: the dispatcher is pure state, and the compositor drains the queues after
/// each batch (delivering events to subscribers, closing client surfaces, starting
/// processes), so that a batch of commands stays atomic.
pub struct Dispatcher {
    pub layout_registry: LayoutRegistry,
    pub layout_config: LayoutConfig,
    /// Events broadcast and not yet taken, oldest first.
    pub events: Vec<Event>,
    /// Windows whose close was requested and not yet taken, oldest first.
    pub pending_closes: Vec<WindowId>,
    /// Commands to spawn not yet taken, oldest first.
    pub pending_spawns: Vec<String>,
    /// A configuration reload was asked for and not yet taken.
    pub reload_requested: bool,
}

impl Dispatcher {
    /// Events broadcast and not yet taken, oldest first.
    pub open spec fn queued_events(&self) -> Seq<Event> {
        self.events@
    }

    /// Windows whose close was requested and not yet taken, oldest first.
    pub open spec fn queued_closes(&self) -> Seq<WindowId> {
        self.pending_closes@
    }

    /// Commands to spawn not yet taken, oldest first.
    pub open spec fn queued_spawns(&self) -> Seq<Seq<char>> {
        self.pending_spawns@.map_values(|c: String| c@)
    }

    pub fn new() -> (d: Dispatcher)
        ensures
            d.layout_registry@ == LayoutRegistry::builtin_map(),
            d.layout_registry.custom_names() == Set::<Seq<char>>::empty(),
            d.layout_config == LayoutConfig::default_spec(),
            d.queued_events() == Seq::<Event>::empty(),
            d.queued_closes() == Seq::<WindowId>::empty(),
            d.queued_spawns() == Seq::<Seq<char>>::empty(),
            !d.reload_requested,
    {
        let d = Dispatcher {
            layout_registry: LayoutRegistry::new(),
            layout_config: LayoutConfig::default(),
            events: Vec::new(),
            pending_closes: Vec::new(),
            pending_spawns: Vec::new(),
            reload_requested: false,
        };
        assert(d.queued_spawns() =~= Seq::<Seq<char>>::empty());
        d
    }

    /// Queues `event` for the subscribers.
    pub fn broadcast(&mut self, event: &Event)
        ensures
            final(self).queued_events() == old(self).queued_events().push(*event),
            final(self).pending_closes == old(self).pending_closes,
            final(self).pending_spawns == old(self).pending_spawns,
            final(self).reload_requested == old(self).reload_requested,
            final(self).layout_registry == old(self).layout_registry,
            final(self).layout_config == old(self).layout_config,
    {
        self.events.push(event.clone());
    }

    /// Takes the queued events, oldest first.
    pub fn take_events(&mut self) -> (r: Vec<Event>)
        ensures
            r@ == old(self).queued_events(),
            final(self).queued_events() == Seq::<Event>::empty(),
            final(self).queued_closes() == old(self).queued_closes(),
            final(self).queued_spawns() == old(self).queued_spawns(),
            final(self).reload_requested == old(self).reload_requested,
            final(self).layout_registry == old(self).layout_registry,
            final(self).layout_config == old(self).layout_config,
    {
        let mut r: Vec<Event> = Vec::new();
        std::mem::swap(&mut r, &mut self.events);
        r
    }

    /// Takes the windows whose close was requested by `window.close`.
    ///
    /// Callers with surface access must call this after every dispatch batch and ask each
    /// client to close; otherwise the client process is never told.
    pub fn take_pending_closes(&mut self) -> (r: Vec<WindowId>)
        ensures
            r@ == old(self).queued_closes(),
            final(self).queued_closes() == Seq::<WindowId>::empty(),
            final(self).queued_events() == old(self).queued_events(),
            final(self).queued_spawns() == old(self).queued_spawns(),
            final(self).reload_requested == old(self).reload_requested,
            final(self).layout_registry == old(self).layout_registry,
            final(self).layout_config == old(self).layout_config,
    {
        let mut r: Vec<WindowId> = Vec::new();
        std::mem::swap(&mut r, &mut self.pending_closes);
        r
    }

    /// Takes the commands queued by `spawn`, oldest first.
    pub fn take_pending_spawns(&mut self) -> (r: Vec<String>)
        ensures
            r@.map_values(|c: String| c@) == old(self).queued_spawns(),
            final(self).queued_spawns() == Seq::<Seq<char>>::empty(),
            final(self).queued_events() == old(self).queued_events(),
            final(self).queued_closes() == old(self).queued_closes(),
            final(self).reload_requested == old(self).reload_requested,
            final(self).layout_registry == old(self).layout_registry,
            final(self).layout_config == old(self).layout_config,
    {
        let mut r: Vec<String> = Vec::new();
        std::mem::swap(&mut r, &mut self.pending_spawns);
        assert(self.pending_spawns@.map_values(|c: String| c@) =~= Seq::<Seq<char>>::empty());
        r
    }

    /// Takes the configuration reload request: whether `config.reload` was dispatched since
    /// it was last taken.
    pub fn take_reload_request(&mut self) -> (r: bool)
        ensures
            r == old(self).reload_requested,
            !final(self).reload_requested,
            final(self).queued_events() == old(self).queued_events(),
            final(self).queued_closes() == old(self).queued_closes(),
            final(self).queued_spawns() == old(self).queued_spawns(),
            final(self).layout_registry == old(self).layout_registry,
            final(self).layout_config == old(self).layout_config,
    {
        let r = self.reload_requested;
        self.reload_requested = false;
        r
    }
}

/// The windows of `ids` that are managed and neither floating nor fullscreen, in order:
/// the ones a layout arranges.
pub open spec fn tiled_windows(ids: Seq<WindowId>, m: Map<u64, Window>) -> Seq<WindowId>
    decreases ids.len(),
{
    if ids.len() == 0 {
        Seq::empty()
    } else {
        let rest = tiled_windows(ids.drop_last(), m);
        let w = ids.last();
        if m.contains_key(w.0) && !m[w.0].floating && !m[w.0].fullscreen {
            rest.push(w)
        } else {
            rest
        }
    }
}

/// `w` with its geometry replaced by `r`.
pub open spec fn with_geometry(w: Window, r: Rect) -> Window {
    Window { geometry: r, ..w }
}

/// `m` after each listed window that it holds took its rectangle, in list order.
pub open spec fn with_geometries(m: Map<u64, Window>, g: Seq<(WindowId, Rect)>) -> Map<u64, Window>
    decreases g.len(),
{
    if g.len() == 0 {
        m
    } else {
        let prev = with_geometries(m, g.drop_last());
        let (id, r) = g.last();
        if prev.contains_key(id.0) {
            prev.insert(id.0, with_geometry(prev[id.0], r))
        } else {
            prev
        }
    }
}

/// `m` after each listed window that it holds and that is fullscreen took `area`.
pub open spec fn with_fullscreen_area(m: Map<u64, Window>, ids: Seq<WindowId>, area: Rect) -> Map<u64, Window>
    decreases ids.len(),
{
    if ids.len() == 0 {
        m
    } else {
        let prev = with_fullscreen_area(m, ids.drop_last(), area);
        let id = ids.last();
        if prev.contains_key(id.0) && prev[id.0].fullscreen {
            prev.insert(id.0, with_geometry(prev[id.0], area))
        } else {
            prev
        }
    }
}

/// `post` holds the same windows as `pre`, each changed in its geometry at most.
pub open spec fn only_geometry_changed(pre: Map<u64, Window>, post: Map<u64, Window>) -> bool {
    &&& post.dom() == pre.dom()
    &&& forall|k: u64| #[trigger] post.contains_key(k) ==> post[k] == with_geometry(pre[k], post[k].geometry)
}

proof fn lemma_only_geometry_insert(pre: Map<u64, Window>, mid: Map<u64, Window>, k: u64, r: Rect)
    requires
        only_geometry_changed(pre, mid),
        mid.contains_key(k),
    ensures
        only_geometry_changed(pre, mid.insert(k, with_geometry(mid[k], r))),
{
    let post = mid.insert(k, with_geometry(mid[k], r));
    assert(post.dom() =~= pre.dom());
}

proof fn lemma_tiled_listed(ids: Seq<WindowId>, m: Map<u64, Window>)
    ensures
        forall|i: int| 0 <= i < tiled_windows(ids, m).len() ==> ids.contains(#[trigger] tiled_windows(ids, m)[i]),
    decreases ids.len(),
{
    if ids.len() > 0 {
        let rest = ids.drop_last();
        lemma_tiled_listed(rest, m);
        assert forall|i: int| 0 <= i < tiled_windows(ids, m).len() implies ids.contains(#[trigger] tiled_windows(ids, m)[i]) by {
            let t = tiled_windows(rest, m);
            if i < t.len() {
                assert(tiled_windows(ids, m)[i] == t[i]);
                assert(rest.contains(t[i]));
                let j = choose|j: int| 0 <= j < rest.len() && rest[j] == t[i];
                assert(ids[j] == t[i]);
            } else {
                assert(ids[ids.len() - 1] == tiled_windows(ids, m)[i]);
            }
        }
    }
}

/// No window of `ids` is numbered `k`.
pub open spec fn unlisted(ids: Seq<WindowId>, k: u64) -> bool {
    forall|j: int| 0 <= j < ids.len() ==> (#[trigger] ids[j]).0 != k
}

impl Dispatcher {
    /// The layout registered under workspace `ws_id`'s layout name, if both exist.
    pub open spec fn layout_of(&self, s: State, ws_id: u32) -> Option<LayoutKind> {
        if s.workspaces@.contains_key(ws_id) && self.layout_registry@.contains_key(
            s.workspaces@[ws_id].layout@,
        ) {
            Some(self.layout_registry@[s.workspaces@[ws_id].layout@])
        } else {
            None
        }
    }

    /// The layout arithmetic for workspace `ws_id` of `s` in `area` stays within `i32`.
    pub open spec fn relayout_fits(&self, s: State, ws_id: u32, area: Rect) -> bool {
        match self.layout_of(s, ws_id) {
            Some(kind) => layout_fits(
                kind,
                tiled_windows(s.workspaces@[ws_id].windows@, s.windows@).len(),
                area,
                self.layout_config,
            ),
            None => true,
        }
    }

    /// The windows of `s` after workspace `ws_id` was laid out: its tiled windows arranged
    /// by its layout in `area`, then its fullscreen windows given `full_area`.
    pub open spec fn relayout(&self, s: State, ws_id: u32, area: Rect, full_area: Rect) -> Map<u64, Window> {
        if !s.workspaces@.contains_key(ws_id) {
            s.windows@
        } else {
            let ids = s.workspaces@[ws_id].windows@;
            let arranged = match self.layout_of(s, ws_id) {
                Some(kind) => with_geometries(
                    s.windows@,
                    arrangement(kind, tiled_windows(ids, s.windows@), area, self.layout_config),
                ),
                None => s.windows@,
            };
            with_fullscreen_area(arranged, ids, full_area)
        }
    }

    /// Whether workspace `ws_id` of `s` is laid out by a layout that a user of the library
    /// supplied.
    pub open spec fn uses_custom_layout(&self, s: State, ws_id: u32) -> bool {
        s.workspaces@.contains_key(ws_id) && self.layout_registry.custom_names().contains(
            s.workspaces@[ws_id].layout@,
        )
    }

    /// The windows of `s` after the windows listed on workspace `ws_id` took the geometries
    /// `g` (as a user-supplied layout gave them), then its fullscreen windows `full_area`.
    pub open spec fn relayout_with(&self, s: State, ws_id: u32, g: Seq<(WindowId, Rect)>, full_area: Rect) -> Map<u64, Window> {
        with_fullscreen_area(with_geometries(s.windows@, g), s.workspaces@[ws_id].windows@, full_area)
    }

    /// Whether laying out workspace `workspace_id` in `usable_area` keeps its arithmetic within
    /// `i32` (the precondition of the recalculation).
    pub fn can_relayout(&self, state: &State, workspace_id: u32, usable_area: Rect) -> (r: bool)
        ensures
            r == self.relayout_fits(*state, workspace_id, usable_area),
    {
        let ws = match state.workspaces.get(&workspace_id) {
            Some(ws) => ws,
            None => return true,
        };
        let kind = match self.layout_registry.get(ws.layout.as_str()) {
            Some(k) => k,
            None => return true,
        };
        let ghost list = ws.windows@;
        let mut count: usize = 0;
        let mut i: usize = 0;
        while i < ws.windows.len()
            invariant
                ws.windows@ == list,
                i <= list.len(),
                count == tiled_windows(list.take(i as int), state.windows@).len(),
                count <= i,
            decreases list.len() - i,
        {
            let w = ws.windows[i];
            proof {
                assert(list.take(i + 1).drop_last() =~= list.take(i as int));
            }
            match state.windows.get(&w.0) {
                Some(win) => {
                    if !win.floating && !win.fullscreen {
                        count = count + 1;
                    }
                },
                None => {},
            }
            i = i + 1;
        }
        proof {
            assert(list.take(list.len() as int) =~= list);
        }
        kind.fits(count, usable_area, &self.layout_config)
    }

    /// Recalculates the geometries of the windows on workspace `workspace_id`: tiled windows
    /// are arranged by the workspace's layout within `usable_area`, fullscreen windows cover
    /// `usable_area`.
    pub fn recalculate_workspace_layout(&self, state: &mut State, workspace_id: u32, usable_area: Rect)
        requires
            self.relayout_fits(*old(state), workspace_id, usable_area),
        ensures
            !self.uses_custom_layout(*old(state), workspace_id) ==> final(state).windows@
                == self.relayout(*old(state), workspace_id, usable_area, usable_area),
            self.uses_custom_layout(*old(state), workspace_id) ==> exists|g: Seq<(WindowId, Rect)>|
                final(state).windows@ == #[trigger] self.relayout_with(*old(state), workspace_id, g, usable_area),
            final(state).workspaces == old(state).workspaces,
            final(state).active_workspace_id == old(state).active_workspace_id,
            final(state).previous_workspace_id == old(state).previous_workspace_id,
            final(state).special_workspace_active == old(state).special_workspace_active,
            final(state).focus_history == old(state).focus_history,
            final(state).next_id() == old(state).next_id(),
            old(state).wf() ==> final(state).wf(),
            only_geometry_changed(old(state).windows@, final(state).windows@),
            old(state).workspaces@.contains_key(workspace_id) && !self.uses_custom_layout(*old(state), workspace_id)
                ==> forall|k: u64|
                unlisted(old(state).workspaces@[workspace_id].windows@, k) ==> final(state).windows@.contains_key(k)
                    == old(state).windows@.contains_key(k) && (#[trigger] final(state).windows@[k]) == old(
                    state,
                ).windows@[k],
    {
        self.recalculate_workspace_layout_with_full_area(state, workspace_id, usable_area, usable_area)
    }

    /// Recalculates the geometries of the windows on workspace `workspace_id`: tiled windows
    /// are arranged by the workspace's layout within `usable_area`, fullscreen windows cover
    /// `full_area` (the whole output).
    pub fn recalculate_workspace_layout_with_full_area(
        &self,
        state: &mut State,
        workspace_id: u32,
        usable_area: Rect,
        full_area: Rect,
    )
        requires
            self.relayout_fits(*old(state), workspace_id, usable_area),
        ensures
            !self.uses_custom_layout(*old(state), workspace_id) ==> final(state).windows@
                == self.relayout(*old(state), workspace_id, usable_area, full_area),
            self.uses_custom_layout(*old(state), workspace_id) ==> exists|g: Seq<(WindowId, Rect)>|
                final(state).windows@ == #[trigger] self.relayout_with(*old(state), workspace_id, g, full_area),
            final(state).workspaces == old(state).workspaces,
            final(state).active_workspace_id == old(state).active_workspace_id,
            final(state).previous_workspace_id == old(state).previous_workspace_id,
            final(state).special_workspace_active == old(state).special_workspace_active,
            final(state).focus_history == old(state).focus_history,
            final(state).next_id() == old(state).next_id(),
            old(state).wf() ==> final(state).wf(),
            only_geometry_changed(old(state).windows@, final(state).windows@),
            old(state).workspaces@.contains_key(workspace_id) && !self.uses_custom_layout(*old(state), workspace_id)
                ==> forall|k: u64|
                unlisted(old(state).workspaces@[workspace_id].windows@, k) ==> final(state).windows@.contains_key(k)
                    == old(state).windows@.contains_key(k) && (#[trigger] final(state).windows@[k]) == old(
                    state,
                ).windows@[k],
    {
        let ghost pre = *state;
        let ws = match state.workspaces.get(&workspace_id) {
            Some(ws) => ws,
            None => return ,
        };
        let layout_name = ws.layout.clone();
        let ghost list = ws.windows@;
        let mut ids: Vec<WindowId> = Vec::new();
        let mut tiled: Vec<WindowId> = Vec::new();
        let mut i: usize = 0;
        while i < ws.windows.len()
            invariant
                ws.windows@ == list,
                list == pre.workspaces@[workspace_id].windows@,
                state.windows@ == pre.windows@,
                i <= list.len(),
                ids@ == list.take(i as int),
                tiled@ == tiled_windows(list.take(i as int), pre.windows@),
            decreases list.len() - i,
        {
            let w = ws.windows[i];
            ids.push(w);
            match state.windows.get(&w.0) {
                Some(win) => {
                    if !win.floating && !win.fullscreen {
                        tiled.push(w);
                    }
                },
                None => {},
            }
            proof {
                assert(list.take(i + 1).drop_last() =~= list.take(i as int));
            }
            i = i + 1;
        }
        proof {
            assert(list.take(list.len() as int) =~= list);
        }
        let ghost m0 = state.windows@;
        proof {
            lemma_tiled_listed(list, pre.windows@);
            assert(only_geometry_changed(m0, m0)) by {
                assert(m0.dom() =~= m0.dom());
            }
        }
        let ghost mut witness: Seq<(WindowId, Rect)> = Seq::empty();
        match self.layout_registry.get(layout_name.as_str()) {
            Some(kind) => {
                let geoms = kind.arrange(tiled.as_slice(), usable_area, &self.layout_config);
                let mut j: usize = 0;
                while j < geoms.len()
                    invariant
                        j <= geoms@.len(),
                        state.windows@ == with_geometries(m0, geoms@.take(j as int)),
                        only_geometry_changed(m0, state.windows@),
                        state.workspaces == pre.workspaces,
                        state.active_workspace_id == pre.active_workspace_id,
                        state.previous_workspace_id == pre.previous_workspace_id,
                        state.special_workspace_active == pre.special_workspace_active,
                        state.focus_history == pre.focus_history,
                        state.next_id() == pre.next_id(),
                        geoms@ == arrangement(kind, tiled@, usable_area, self.layout_config),
                        tiled@ == tiled_windows(list, pre.windows@),
                        forall|t: int| 0 <= t < tiled@.len() ==> list.contains(#[trigger] tiled@[t]),
                        forall|k: u64| unlisted(list, k) ==> state.windows@.contains_key(k)
                            == m0.contains_key(k) && #[trigger] state.windows@[k] == m0[k],
                    decreases geoms@.len() - j,
                {
                    let p = geoms[j];
                    let id = p.0;
                    let r = p.1;
                    proof {
                        assert(geoms@.take(j + 1).drop_last() =~= geoms@.take(j as int));
                    }
                    proof {
                        assert(id == tiled@[j as int]);
                        assert(list.contains(id));
                    }
                    if state.windows.contains_key(&id.0) {
                        let mut w = state.windows.remove(&id.0).unwrap();
                        proof {
                            lemma_only_geometry_insert(m0, state.windows@.insert(id.0, w), id.0, r);
                        }
                        w.geometry = r;
                        state.windows.insert(id.0, w);
                    }
                    j = j + 1;
                }
                proof {
                    assert(geoms@.take(geoms@.len() as int) =~= geoms@);
                }
            },
            None => {
                match self.layout_registry.arrange_custom(
                    layout_name.as_str(),
                    tiled.as_slice(),
                    usable_area,
                    &self.layout_config,
                ) {
                    Some(geoms) => {
                        apply_geometries(state, &geoms);
                        proof {
                            witness = geoms@;
                        }
                    },
                    None => {},
                }
            },
        }
        let ghost m1 = state.windows@;
        proof {
            if self.uses_custom_layout(pre, workspace_id) {
                assert(m1 == with_geometries(m0, witness));
            } else {
                assert(forall|k: u64| #[trigger] unlisted(list, k) ==> m1.contains_key(k) == m0.contains_key(k) && m1[k] == m0[k]);
            }
        }
        let mut k: usize = 0;
        while k < ids.len()
            invariant
                k <= ids@.len(),
                ids@ == list,
                state.windows@ == with_fullscreen_area(m1, ids@.take(k as int), full_area),
                only_geometry_changed(m0, state.windows@),
                state.workspaces == pre.workspaces,
                state.active_workspace_id == pre.active_workspace_id,
                state.previous_workspace_id == pre.previous_workspace_id,
                state.special_workspace_active == pre.special_workspace_active,
                state.focus_history == pre.focus_history,
                state.next_id() == pre.next_id(),
                forall|k2: u64| #[trigger] unlisted(list, k2) ==> state.windows@.contains_key(k2)
                    == m1.contains_key(k2) && state.windows@[k2] == m1[k2],
            decreases ids@.len() - k,
        {
            let id = ids[k];
            let ghost before = state.windows@;
            proof {
                assert(ids@.take(k + 1).drop_last() =~= ids@.take(k as int));
            }
            let full = match state.windows.get(&id.0) {
                Some(w) => w.fullscreen,
                None => false,
            };
            if full {
                let mut w = state.windows.remove(&id.0).unwrap();
                proof {
                    lemma_only_geometry_insert(m0, state.windows@.insert(id.0, w), id.0, full_area);
                }
                w.geometry = full_area;
                state.windows.insert(id.0, w);
            }
            proof {
                assert forall|k2: u64| #[trigger] unlisted(list, k2) implies state.windows@.contains_key(k2)
                    == m1.contains_key(k2) && state.windows@[k2] == m1[k2] by {
                    assert(list[k as int] == id);
                    assert(before.contains_key(k2) == m1.contains_key(k2) && before[k2] == m1[k2]);
                }
            }
            k = k + 1;
        }
        proof {
            assert(ids@.take(ids@.len() as int) =~= ids@);
            if self.uses_custom_layout(pre, workspace_id) {
                assert(state.windows@ == self.relayout_with(pre, workspace_id, witness, full_area));
            } else {
                assert forall|k2: u64| #[trigger] unlisted(list, k2) implies state.windows@.contains_key(k2)
                    == pre.windows@.contains_key(k2) && state.windows@[k2] == pre.windows@[k2] by {
                    assert(m1.contains_key(k2) == m0.contains_key(k2) && m1[k2] == m0[k2]);
                }
            }
            if pre.wf() {
                assert(state.windows@.dom() =~= pre.windows@.dom());
                assert forall|w: u64| #[trigger] state.windows@.contains_key(w) implies {
                    &&& state.windows@[w].id == WindowId(w)
                    &&& w < state.next_id()
                    &&& state.workspaces@.contains_key(state.windows@[w].workspace_id)
                    &&& state.workspaces@[state.windows@[w].workspace_id].windows@.contains(WindowId(w))
                } by {
                    assert(pre.windows@.contains_key(w));
                }
                assert forall|j: u32, t: int|
                    #![trigger state.workspaces@[j].windows@[t]]
                    state.workspaces@.contains_key(j) && 0 <= t < state.workspaces@[j].windows@.len() implies {
                        let w = state.workspaces@[j].windows@[t];
                        &&& state.windows@.contains_key(w.0)
                        &&& state.windows@[w.0].workspace_id == j
                    } by {
                    let w = state.workspaces@[j].windows@[t];
                    assert(pre.workspaces@[j].windows@[t] == w);
                    assert(pre.windows@.contains_key(w.0));
                }
            }
        }
    }
}

/// `state`'s windows after each window of `geoms` that it holds took its listed geometry.
fn apply_geometries(state: &mut State, geoms: &Vec<(WindowId, Rect)>)
    ensures
        final(state).windows@ == with_geometries(old(state).windows@, geoms@),
        only_geometry_changed(old(state).windows@, final(state).windows@),
        final(state).workspaces == old(state).workspaces,
        final(state).active_workspace_id == old(state).active_workspace_id,
        final(state).previous_workspace_id == old(state).previous_workspace_id,
        final(state).special_workspace_active == old(state).special_workspace_active,
        final(state).focus_history == old(state).focus_history,
        final(state).next_id() == old(state).next_id(),
{
    let ghost pre = *state;
    let ghost m0 = state.windows@;
    proof {
        assert(only_geometry_changed(m0, m0)) by {
            assert(m0.dom() =~= m0.dom());
        }
    }
    let mut j: usize = 0;
    while j < geoms.len()
        invariant
            j <= geoms@.len(),
            m0 == pre.windows@,
            state.windows@ == with_geometries(m0, geoms@.take(j as int)),
            only_geometry_changed(m0, state.windows@),
            state.workspaces == pre.workspaces,
            state.active_workspace_id == pre.active_workspace_id,
            state.previous_workspace_id == pre.previous_workspace_id,
            state.special_workspace_active == pre.special_workspace_active,
            state.focus_history == pre.focus_history,
            state.next_id() == pre.next_id(),
        decreases geoms@.len() - j,
    {
        let p = geoms[j];
        let id = p.0;
        let r = p.1;
        proof {
            assert(geoms@.take(j + 1).drop_last() =~= geoms@.take(j as int));
        }
        if state.windows.contains_key(&id.0) {
            let mut w = state.windows.remove(&id.0).unwrap();
            proof {
                lemma_only_geometry_insert(m0, state.windows@.insert(id.0, w), id.0, r);
            }
            w.geometry = r;
            state.windows.insert(id.0, w);
        }
        j = j + 1;
    }
    proof {
        assert(geoms@.take(geoms@.len() as int) =~= geoms@);
    }
}

/// Whether two window lists are the same.
fn same_windows(a: &Vec<WindowId>, b: &Vec<WindowId>) -> (r: bool)
    ensures
        r == (a@ == b@),
{
    if a.len() != b.len() {
        return false;
    }
    let mut i: usize = 0;
    while i < a.len()
        invariant
            a@.len() == b@.len(),
            i <= a@.len(),
            forall|j: int| 0 <= j < i ==> a@[j] == b@[j],
        decreases a@.len() - i,
    {
        if a[i] != b[i] {
            return false;
        }
        i = i + 1;
    }
    assert(a@ =~= b@);
    true
}

impl Dispatcher {
    /// Executes `command` against `state`, queueing the events it causes; a refused command
    /// changes nothing.
    #[verifier::rlimit(60)]
    pub fn dispatch(&mut self, state: &mut State, command: Command) -> (r: Result<DispatchResult, DispatchError>)
        requires
            old(state).wf(),
        ensures
            dispatch_outcome(*old(self), *final(self), *old(state), *final(state), command, r),
            final(state).wf(),
    {
        let ghost pre = *state;
        match command {
            Command::WorkspaceSwitch { id } => {
                let prev_id = state.active_workspace_id;
                match state.switch_workspace(id) {
                    Ok(()) => {},
                    Err(e) => return Err(DispatchError::from_state_error(&e)),
                }
                if prev_id != id {
                    self.broadcast(&Event::WorkspaceSwitched { id });
                }
                Ok(DispatchResult::Done)
            },
            Command::WindowFocus { id } => {
                let wk = match state.windows.get(&id.0) {
                    Some(w) => w.workspace_id,
                    None => return Err(DispatchError::from_state_error(&StateError::WindowNotFound(id))),
                };
                let before_active = state.active_workspace_id;
                let before_focus = match state.workspaces.get(&wk) {
                    Some(ws) => ws.focused_window,
                    None => None,
                };
                let before_history = state.focus_history.clone();
                assert(before_history@ == pre.focus_history@);
                match state.focus_window(id) {
                    Ok(()) => {},
                    Err(e) => return Err(DispatchError::from_state_error(&e)),
                }
                let changed = wk != before_active || !is_some_window(before_focus, id)
                    || !same_windows(&state.focus_history, &before_history);
                if changed {
                    self.broadcast(&Event::WindowFocused { id });
                }
                Ok(DispatchResult::Done)
            },
            Command::WindowFocusDir { direction } => {
                let ws = state.active_workspace_mut();
                let before = ws.focused_window;
                let focused = match direction {
                    Direction::Next => ws.focus_next(),
                    Direction::Prev => ws.focus_prev(),
                };
                proof {
                    state.lemma_workspace_edit_wf(pre, pre.active_workspace_id);
                }
                if let Some(id) = focused {
                    if !is_some_window(before, id) {
                        self.broadcast(&Event::WindowFocused { id });
                    }
                }
                Ok(DispatchResult::Done)
            },
            Command::WindowSwapMaster => {
                let ws = state.active_workspace_mut();
                let ghost ow = *ws;
                proof {
                    if let Some(f) = ws.focused_window {
                        crate::state::workspace::lemma_position_in(ws.windows@, f);
                    }
                }
                let swapped = ws.swap_focused_with_master();
                let master = if swapped {
                    Some(ws.windows[0])
                } else {
                    None
                };
                proof {
                    let ol = ow.windows@;
                    let nl = state.workspaces@[pre.active_workspace_id].windows@;
                    if swapped {
                        let p = crate::state::workspace::position_in(ol, ow.focused_window->0);
                        assert forall|w: WindowId| nl.contains(w) <==> ol.contains(w) by {
                            if nl.contains(w) {
                                let t = choose|t: int| 0 <= t < nl.len() && nl[t] == w;
                                let u = if t == 0 { p } else if t == p { 0 } else { t };
                                assert(ol[u] == w);
                            }
                            if ol.contains(w) {
                                let t = choose|t: int| 0 <= t < ol.len() && ol[t] == w;
                                let u = if t == 0 { p } else if t == p { 0 } else { t };
                                assert(nl[u] == w);
                            }
                        }
                    }
                    state.lemma_workspace_edit_wf(pre, pre.active_workspace_id);
                }
                if let Some(id) = master {
                    self.broadcast(&Event::WindowFocused { id });
                }
                Ok(DispatchResult::Done)
            },
            Command::WindowClose { id } => {
                let win_id = match id {
                    Some(id) => id,
                    None => match state.active_workspace().focused_window {
                        Some(f) => f,
                        None => return Ok(DispatchResult::Done),
                    },
                };
                match state.remove_window(win_id) {
                    Ok(()) => {},
                    Err(e) => return Err(DispatchError::from_state_error(&e)),
                }
                self.broadcast(&Event::WindowDestroyed { id: win_id });
                self.pending_closes.push(win_id);
                Ok(DispatchResult::Done)
            },
            Command::WindowToggleFloating { id } => {
                let win_id = match id {
                    Some(id) => id,
                    None => match state.active_workspace().focused_window {
                        Some(f) => f,
                        None => return Ok(DispatchResult::Done),
                    },
                };
                match state.toggle_floating(win_id) {
                    Ok(_) => {},
                    Err(e) => return Err(DispatchError::from_state_error(&e)),
                }
                let window = state.windows.get(&win_id.0).unwrap();
                self.broadcast(
                    &Event::WindowStateChanged {
                        id: win_id,
                        floating: window.floating,
                        fullscreen: window.fullscreen,
                    },
                );
                Ok(DispatchResult::Done)
            },
            Command::WindowToggleFullscreen { id } => {
                let win_id = match id {
                    Some(id) => id,
                    None => match state.active_workspace().focused_window {
                        Some(f) => f,
                        None => return Ok(DispatchResult::Done),
                    },
                };
                match state.toggle_fullscreen(win_id) {
                    Ok(_) => {},
                    Err(e) => return Err(DispatchError::from_state_error(&e)),
                }
                let window = state.windows.get(&win_id.0).unwrap();
                self.broadcast(
                    &Event::WindowStateChanged {
                        id: win_id,
                        floating: window.floating,
                        fullscreen: window.fullscreen,
                    },
                );
                Ok(DispatchResult::Done)
            },
            Command::Spawn { command } => {
                self.pending_spawns.push(command);
                Ok(DispatchResult::Done)
            },
            Command::WindowMoveToWorkspace { window_id, workspace_id } => {
                let win_id = match window_id {
                    Some(id) => id,
                    None => match state.active_workspace().focused_window {
                        Some(f) => f,
                        None => {
                            return Err(
                                DispatchError::InvalidParams(
                                    String::from_str("No focused window to move"),
                                ),
                            );
                        },
                    },
                };
                let moves = match state.windows.get(&win_id.0) {
                    Some(w) => w.workspace_id != workspace_id,
                    None => false,
                };
                match state.move_window_to_workspace(win_id, workspace_id) {
                    Ok(()) => {},
                    Err(e) => return Err(DispatchError::from_state_error(&e)),
                }
                if moves {
                    self.broadcast(&Event::WindowMovedWorkspace { id: win_id, workspace_id });
                }
                Ok(DispatchResult::Done)
            },
            Command::LayoutSet { layout } => {
                if !self.layout_registry.has_layout(layout.as_str()) {
                    let mut msg = String::from_str("Unknown layout '");
                    push_str(&mut msg, layout.as_str());
                    push_str(&mut msg, "'");
                    return Err(DispatchError::InvalidParams(msg));
                }
                let ws_id = state.active_workspace_id;
                let ws = state.active_workspace_mut();
                let differs = !str_equal(ws.layout.as_str(), layout.as_str());
                ws.layout = layout.clone();
                proof {
                    state.lemma_workspace_edit_wf(pre, pre.active_workspace_id);
                }
                if differs {
                    self.broadcast(&Event::LayoutChanged { workspace_id: ws_id, layout });
                }
                Ok(DispatchResult::Done)
            },
            Command::LayoutSetGap { gap } => {
                // Keep layout arithmetic inside signed compositor coordinates even for
                // malformed input.
                let gap = if gap < 4096 {
                    gap
                } else {
                    4096
                };
                let differs = self.layout_config.gap != gap;
                self.layout_config.gap = gap;
                if differs {
                    self.broadcast(&Event::LayoutConfigChanged { gap: Some(gap), master_ratio: None });
                }
                Ok(DispatchResult::Done)
            },
            Command::LayoutSetRatio { ratio } => {
                let v = match ratio {
                    Some(v) => v,
                    None => {
                        return Err(
                            DispatchError::InvalidParams(
                                String::from_str("Master ratio must be a finite number"),
                            ),
                        );
                    },
                };
                let clamped: u32 = if v < 1000 {
                    1000
                } else if v > 9000 {
                    9000
                } else {
                    v as u32
                };
                let differs = self.layout_config.master_ratio != clamped;
                self.layout_config.master_ratio = clamped;
                if differs {
                    self.broadcast(
                        &Event::LayoutConfigChanged { gap: None, master_ratio: Some(clamped) },
                    );
                }
                Ok(DispatchResult::Done)
            },
            Command::ConfigReload => {
                self.reload_requested = true;
                Ok(DispatchResult::Done)
            },
            Command::StateGet => Ok(DispatchResult::State(state.duplicate())),
            Command::CompositorQuit => {
                self.broadcast(&Event::CompositorQuitting);
                Ok(DispatchResult::Quitting)
            },
            other => {
                let name = other.name();
                Err(DispatchError::UnknownCommand(String::from_str(name)))
            },
        }
    }
}

impl Default for Dispatcher {
    fn default() -> (d: Dispatcher)
        ensures
            d.layout_registry@ == LayoutRegistry::builtin_map(),
            d.layout_registry.custom_names() == Set::<Seq<char>>::empty(),
            d.layout_config == LayoutConfig::default_spec(),
            d.queued_events() == Seq::<Event>::empty(),
            d.queued_closes() == Seq::<WindowId>::empty(),
            d.queued_spawns() == Seq::<Seq<char>>::empty(),
            !d.reload_requested,
    {
        Dispatcher::new()
    }
}

} // verus!
