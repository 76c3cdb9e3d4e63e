use vstd::prelude::*;
use vstd::string::*;
use std::collections::BTreeMap;

pub mod keys;
pub mod rules;
pub mod window;
pub mod workspace;

use crate::text::{decimal, decimal_string, push_str};
use keys::{sorted_keys, strictly_increasing};
use window::{Rect, Window, WindowId};
use workspace::{
    focus_after_add, focus_after_remove, list_after_add, without, vec_without, Workspace,
};

verus! {

/// Failures of state operations.
#[derive(Debug, Clone, PartialEq, Eq)]
pub enum StateError {
    WorkspaceNotFound(u32),
    WindowNotFound(WindowId),
    InvalidOperation(String),
}

/// Text of a state error, as it is reported to IPC clients.
pub open spec fn state_error_text(e: StateError) -> Seq<char> {
    match e {
        StateError::WorkspaceNotFound(id) => "Workspace with id "@ + decimal(id as nat)
            + " not found"@,
        StateError::WindowNotFound(id) => "Window with id WindowId("@ + decimal(id.0 as nat)
            + ") not found"@,
        StateError::InvalidOperation(msg) => "Invalid operation: "@ + msg@,
    }
}

impl StateError {
    /// The error's text.
    pub fn message(&self) -> (s: String)
        ensures
            s@ == state_error_text(*self),
    {
        match self {
            StateError::WorkspaceNotFound(id) => {
                let mut s = String::from_str("Workspace with id ");
                let n = decimal_string(*id as u64);
                push_str(&mut s, n.as_str());
                push_str(&mut s, " not found");
                s
            },
            StateError::WindowNotFound(id) => {
                let mut s = String::from_str("Window with id WindowId(");
                let n = decimal_string(id.0);
                push_str(&mut s, n.as_str());
                push_str(&mut s, ") not found");
                s
            },
            StateError::InvalidOperation(msg) => {
                let mut s = String::from_str("Invalid operation: ");
                push_str(&mut s, msg.as_str());
                s
            },
        }
    }
}

/// Id of the overlay ("scratchpad") workspace, left out of workspace cycling.
pub const SPECIAL_WORKSPACE_ID: u32 = 999;

/// The workspace ids that next/previous cycling visits.
pub open spec fn cycle_ids(ids: Set<u32>) -> Set<u32> {
    ids.remove(SPECIAL_WORKSPACE_ID)
}

pub open spec fn is_least(s: Set<u32>, m: u32) -> bool {
    s.contains(m) && forall|k: u32| s.contains(k) ==> m <= k
}

pub open spec fn is_greatest(s: Set<u32>, m: u32) -> bool {
    s.contains(m) && forall|k: u32| s.contains(k) ==> k <= m
}

/// `n` is the next member of `s` after `a`, wrapping around to the least member.
pub open spec fn cyclic_next(s: Set<u32>, a: u32, n: u32) -> bool {
    if exists|k: u32| s.contains(k) && a < k {
        &&& s.contains(n)
        &&& a < n
        &&& forall|k: u32| s.contains(k) && a < k ==> n <= k
    } else {
        is_least(s, n)
    }
}

/// `p` is the member of `s` before `a`, wrapping around to the greatest member.
pub open spec fn cyclic_prev(s: Set<u32>, a: u32, p: u32) -> bool {
    if exists|k: u32| s.contains(k) && k < a {
        &&& s.contains(p)
        &&& p < a
        &&& forall|k: u32| s.contains(k) && k < a ==> k <= p
    } else {
        is_greatest(s, p)
    }
}

/// Where cycling starts: the active workspace if it takes part, else the least cycled id.
pub open spec fn cycle_base(s: Set<u32>, active: u32, base: u32) -> bool {
    if s.contains(active) {
        base == active
    } else {
        is_least(s, base)
    }
}

/// The most recent entry of `s` (searching from the end) that satisfies `p`.
pub open spec fn last_satisfying(s: Seq<WindowId>, p: spec_fn(WindowId) -> bool) -> Option<WindowId>
    decreases s.len(),
{
    if s.len() == 0 {
        None
    } else if p(s.last()) {
        Some(s.last())
    } else {
        last_satisfying(s.drop_last(), p)
    }
}

/// Single source of truth for the compositor state.
#[derive(Debug)]
pub struct State {
    pub workspaces: BTreeMap<u32, Workspace>,
    /// Managed windows, keyed by the number inside their `WindowId`.
    pub windows: BTreeMap<u64, Window>,
    pub active_workspace_id: u32,
    pub previous_workspace_id: Option<u32>,
    pub special_workspace_active: bool,
    pub focus_history: Vec<WindowId>,
    /// The number the next created window gets as its id.
    pub next_window_id: u64,
}

impl State {
    /// The number the next created window gets as its id.
    pub open spec fn next_id(&self) -> u64 {
        self.next_window_id
    }

    /// Workspaces are keyed by their own id and are each well formed.
    pub open spec fn workspaces_wf(&self) -> bool {
        forall|k: u32| #[trigger] self.workspaces@.contains_key(k) ==> {
            &&& self.workspaces@[k].id == k
            &&& self.workspaces@[k].wf()
        }
    }

    /// Every window lives on an existing workspace, in that workspace's list, under its own
    /// id, and that id is below `next_id()`.
    pub open spec fn windows_placed(&self) -> bool {
        forall|w: u64| #[trigger] self.windows@.contains_key(w) ==> {
            &&& self.windows@[w].id == WindowId(w)
            &&& w < self.next_id()
            &&& self.workspaces@.contains_key(self.windows@[w].workspace_id)
            &&& self.workspaces@[self.windows@[w].workspace_id].windows@.contains(WindowId(w))
        }
    }

    /// Every window a workspace lists is managed and names that workspace as its own.
    pub open spec fn lists_match(&self) -> bool {
        forall|k: u32, i: int|
            #![trigger self.workspaces@[k].windows@[i]]
            self.workspaces@.contains_key(k) && 0 <= i < self.workspaces@[k].windows@.len() ==> {
                let w = self.workspaces@[k].windows@[i];
                &&& self.windows@.contains_key(w.0)
                &&& self.windows@[w.0].workspace_id == k
            }
    }

    /// The state's invariant: the active workspace exists, and the window map and the
    /// per-workspace window lists describe the same placement of windows.
    pub open spec fn wf(&self) -> bool {
        &&& self.workspaces@.contains_key(self.active_workspace_id)
        &&& self.workspaces_wf()
        &&& self.windows_placed()
        &&& self.lists_match()
    }

    /// The default workspaces: "1".."9" and "special", all using the master layout.
    pub open spec fn is_initial(&self) -> bool {
        &&& forall|k: u32| #[trigger]
            self.workspaces@.contains_key(k) <==> (1 <= k <= 9 || k == SPECIAL_WORKSPACE_ID)
        &&& forall|k: u32| 1 <= k <= 9 ==> {
            let ws = #[trigger] self.workspaces@[k];
            &&& ws.name@ == decimal(k as nat)
        }
        &&& self.workspaces@[SPECIAL_WORKSPACE_ID].name@ == "special"@
        &&& forall|k: u32| #[trigger] self.workspaces@.contains_key(k) ==> {
            let ws = self.workspaces@[k];
            &&& ws.id == k
            &&& ws.layout@ == "master"@
            &&& ws.windows@.len() == 0
            &&& ws.focused_window is None
            &&& ws.output is None
        }
        &&& self.windows@.len() == 0
        &&& self.windows@ == Map::<u64, Window>::empty()
        &&& self.active_workspace_id == 1
        &&& self.previous_workspace_id is None
        &&& !self.special_workspace_active
        &&& self.focus_history@.len() == 0
        &&& self.next_id() == 1
    }

    /// How `switch_workspace` relates the state before (`pre`) and after (`post`) the call.
    pub open spec fn switch_post(pre: State, post: State, id: u32, r: Result<(), StateError>) -> bool {
        &&& !pre.workspaces@.contains_key(id) ==> r == Err::<(), StateError>(
                StateError::WorkspaceNotFound(id)
            ) && post == pre
        &&& pre.workspaces@.contains_key(id) ==> r is Ok
        &&& pre.workspaces@.contains_key(id) && pre.active_workspace_id != id ==> {
                &&& post.active_workspace_id == id
                &&& post.previous_workspace_id == Some(pre.active_workspace_id)
            }
        &&& pre.workspaces@.contains_key(id) && pre.active_workspace_id == id
                ==> post == pre
        &&& post.workspaces == pre.workspaces
        &&& post.windows == pre.windows
        &&& post.special_workspace_active == pre.special_workspace_active
        &&& post.focus_history == pre.focus_history
        &&& post.next_id() == pre.next_id()
    }

    /// How `create_window` relates the state before (`pre`) and after (`post`) the call.
    pub open spec fn create_post(pre: State, post: State, workspace_id: Option<u32>, r: Result<WindowId, StateError>) -> bool {
        &&& ({
                let target = match workspace_id {
                    Some(w) => w,
                    None => pre.active_workspace_id,
                };
                if !pre.workspaces@.contains_key(target) {
                    &&& r == Err::<WindowId, StateError>(StateError::WorkspaceNotFound(target))
                    &&& post == pre
                } else {
                    let id = WindowId(pre.next_id());
                    let old_ws = pre.workspaces@[target];
                    let new_ws = post.workspaces@[target];
                    &&& r == Ok::<WindowId, StateError>(id)
                    &&& post.next_id() == pre.next_id() + 1
                    &&& post.windows@ == pre.windows@.insert(
                        id.0,
                        post.windows@[id.0],
                    )
                    &&& post.windows@[id.0].fresh(id, target)
                    &&& post.workspaces@ == pre.workspaces@.insert(target, new_ws)
                    &&& new_ws.windows@ == list_after_add(old_ws.windows@, id)
                    &&& new_ws.focused_window == focus_after_add(old_ws.focused_window, id)
                    &&& new_ws.same_identity(old_ws)
                    &&& post.focus_history@ == (if new_ws.focused_window == Some(id) {
                        without(pre.focus_history@, id).push(id)
                    } else {
                        pre.focus_history@
                    })
                    &&& post.active_workspace_id == pre.active_workspace_id
                    &&& post.previous_workspace_id == pre.previous_workspace_id
                    &&& post.special_workspace_active == pre.special_workspace_active
                }
            })
    }

    /// How `remove_window` relates the state before (`pre`) and after (`post`) the call.
    pub open spec fn remove_post(pre: State, post: State, id: WindowId, r: Result<(), StateError>) -> bool {
        &&& !pre.windows@.contains_key(id.0) ==> {
                &&& r == Err::<(), StateError>(StateError::WindowNotFound(id))
                &&& post == pre
            }
        &&& pre.windows@.contains_key(id.0) ==> {
                let wk = pre.windows@[id.0].workspace_id;
                &&& r is Ok
                &&& post.windows@ == pre.windows@.remove(id.0)
                &&& if pre.workspaces@.contains_key(wk) {
                    let ow = pre.workspaces@[wk];
                    let nw = post.workspaces@[wk];
                    &&& post.workspaces@ == pre.workspaces@.insert(wk, nw)
                    &&& nw.windows@ == without(ow.windows@, id)
                    &&& nw.focused_window == focus_after_remove(ow.focused_window, id, nw.windows@)
                    &&& nw.same_identity(ow)
                    &&& post.focus_history@ == without(
                        match nw.focused_window {
                            Some(f) => without(pre.focus_history@, f).push(f),
                            None => pre.focus_history@,
                        },
                        id,
                    )
                } else {
                    &&& post.workspaces@ == pre.workspaces@
                    &&& post.focus_history@ == without(pre.focus_history@, id)
                }
                &&& post.active_workspace_id == pre.active_workspace_id
                &&& post.previous_workspace_id == pre.previous_workspace_id
                &&& post.special_workspace_active == pre.special_workspace_active
                &&& post.next_id() == pre.next_id()
            }
    }

    /// How `focus_window` relates the state before (`pre`) and after (`post`) the call.
    pub open spec fn focus_post(pre: State, post: State, id: WindowId, r: Result<(), StateError>) -> bool {
        &&& !pre.windows@.contains_key(id.0) ==> {
                &&& r == Err::<(), StateError>(StateError::WindowNotFound(id))
                &&& post == pre
            }
        &&& pre.windows@.contains_key(id.0) ==> {
                let wk = pre.windows@[id.0].workspace_id;
                let ow = pre.workspaces@[wk];
                let nw = post.workspaces@[wk];
                &&& r is Ok
                &&& post.active_workspace_id == wk
                &&& post.previous_workspace_id == (if wk != pre.active_workspace_id {
                    Some(pre.active_workspace_id)
                } else {
                    pre.previous_workspace_id
                })
                &&& post.workspaces@ == pre.workspaces@.insert(wk, nw)
                &&& nw.focused_window == Some(id)
                &&& nw.windows == ow.windows
                &&& nw.same_identity(ow)
                &&& post.focus_history@ == without(pre.focus_history@, id).push(id)
                &&& post.windows == pre.windows
                &&& post.special_workspace_active == pre.special_workspace_active
                &&& post.next_id() == pre.next_id()
            }
    }

    /// How `move_window_to_workspace` relates the state before (`pre`) and after (`post`) the call.
    pub open spec fn move_post(pre: State, post: State, window_id: WindowId, target_ws_id: u32, r: Result<(), StateError>) -> bool {
        &&& !pre.workspaces@.contains_key(target_ws_id) ==> {
                &&& r == Err::<(), StateError>(StateError::WorkspaceNotFound(target_ws_id))
                &&& post == pre
            }
        &&& pre.workspaces@.contains_key(target_ws_id) && !pre.windows@.contains_key(
                window_id.0
            ) ==> {
                &&& r == Err::<(), StateError>(StateError::WindowNotFound(window_id))
                &&& post == pre
            }
        &&& pre.workspaces@.contains_key(target_ws_id) && pre.windows@.contains_key(
                window_id.0
            ) && pre.windows@[window_id.0].workspace_id == target_ws_id ==> {
                &&& r is Ok
                &&& post == pre
            }
        &&& pre.workspaces@.contains_key(target_ws_id) && pre.windows@.contains_key(
                window_id.0
            ) && pre.windows@[window_id.0].workspace_id != target_ws_id ==> {
                let cur = pre.windows@[window_id.0].workspace_id;
                let ot = pre.workspaces@[target_ws_id];
                let nt = post.workspaces@[target_ws_id];
                &&& r is Ok
                &&& post.windows@ == pre.windows@.insert(
                    window_id.0,
                    Window { workspace_id: target_ws_id, ..pre.windows@[window_id.0] },
                )
                &&& nt.windows@ == list_after_add(ot.windows@, window_id)
                &&& nt.focused_window == focus_after_add(ot.focused_window, window_id)
                &&& nt.same_identity(ot)
                &&& if pre.workspaces@.contains_key(cur) {
                    let oc = pre.workspaces@[cur];
                    let nc = post.workspaces@[cur];
                    &&& post.workspaces@ == pre.workspaces@.insert(cur, nc).insert(
                        target_ws_id,
                        nt,
                    )
                    &&& nc.windows@ == without(oc.windows@, window_id)
                    &&& nc.focused_window == focus_after_remove(
                        oc.focused_window,
                        window_id,
                        nc.windows@,
                    )
                    &&& nc.same_identity(oc)
                } else {
                    post.workspaces@ == pre.workspaces@.insert(target_ws_id, nt)
                }
                &&& post.active_workspace_id == pre.active_workspace_id
                &&& post.previous_workspace_id == pre.previous_workspace_id
                &&& post.special_workspace_active == pre.special_workspace_active
                &&& post.focus_history == pre.focus_history
                &&& post.next_id() == pre.next_id()
            }
    }

    /// How `toggle_floating` relates the state before (`pre`) and after (`post`) the call.
    pub open spec fn toggle_floating_post(pre: State, post: State, id: WindowId, r: Result<bool, StateError>) -> bool {
        &&& !pre.windows@.contains_key(id.0) ==> {
                &&& r == Err::<bool, StateError>(StateError::WindowNotFound(id))
                &&& post == pre
            }
        &&& pre.windows@.contains_key(id.0) ==> {
                let w = pre.windows@[id.0];
                &&& r == Ok::<bool, StateError>(!w.floating)
                &&& post.windows@ == pre.windows@.insert(
                    id.0,
                    Window { floating: !w.floating, ..w },
                )
                &&& post.workspaces == pre.workspaces
                &&& post.active_workspace_id == pre.active_workspace_id
                &&& post.previous_workspace_id == pre.previous_workspace_id
                &&& post.special_workspace_active == pre.special_workspace_active
                &&& post.focus_history == pre.focus_history
                &&& post.next_id() == pre.next_id()
            }
    }

    /// How `toggle_pinned` relates the state before (`pre`) and after (`post`) the call.
    pub open spec fn toggle_pinned_post(pre: State, post: State, id: WindowId, r: Result<bool, StateError>) -> bool {
        &&& !pre.windows@.contains_key(id.0) ==> {
                &&& r == Err::<bool, StateError>(StateError::WindowNotFound(id))
                &&& post == pre
            }
        &&& pre.windows@.contains_key(id.0) ==> {
                let w = pre.windows@[id.0];
                &&& r == Ok::<bool, StateError>(!w.pinned)
                &&& post.windows@ == pre.windows@.insert(
                    id.0,
                    Window { pinned: !w.pinned, ..w },
                )
                &&& post.workspaces == pre.workspaces
                &&& post.active_workspace_id == pre.active_workspace_id
                &&& post.previous_workspace_id == pre.previous_workspace_id
                &&& post.special_workspace_active == pre.special_workspace_active
                &&& post.focus_history == pre.focus_history
                &&& post.next_id() == pre.next_id()
            }
    }

    /// How `toggle_fullscreen` relates the state before (`pre`) and after (`post`) the call.
    pub open spec fn toggle_fullscreen_post(pre: State, post: State, id: WindowId, r: Result<bool, StateError>) -> bool {
        &&& !pre.windows@.contains_key(id.0) ==> {
                &&& r == Err::<bool, StateError>(StateError::WindowNotFound(id))
                &&& post == pre
            }
        &&& pre.windows@.contains_key(id.0) ==> {
                let w = pre.windows@[id.0];
                &&& r == Ok::<bool, StateError>(!w.fullscreen)
                &&& post.windows@ == pre.windows@.insert(id.0, w.toggled_fullscreen())
                &&& post.workspaces == pre.workspaces
                &&& post.active_workspace_id == pre.active_workspace_id
                &&& post.previous_workspace_id == pre.previous_workspace_id
                &&& post.special_workspace_active == pre.special_workspace_active
                &&& post.focus_history == pre.focus_history
                &&& post.next_id() == pre.next_id()
            }
    }

    /// How `toggle_maximized` relates the state before (`pre`) and after (`post`) the call.
    pub open spec fn toggle_maximized_post(pre: State, post: State, id: WindowId, r: Result<bool, StateError>) -> bool {
        &&& !pre.windows@.contains_key(id.0) ==> {
                &&& r == Err::<bool, StateError>(StateError::WindowNotFound(id))
                &&& post == pre
            }
        &&& pre.windows@.contains_key(id.0) ==> {
                let w = pre.windows@[id.0];
                &&& r == Ok::<bool, StateError>(!w.maximized)
                &&& post.windows@ == pre.windows@.insert(id.0, w.toggled_maximized())
                &&& post.workspaces == pre.workspaces
                &&& post.active_workspace_id == pre.active_workspace_id
                &&& post.previous_workspace_id == pre.previous_workspace_id
                &&& post.special_workspace_active == pre.special_workspace_active
                &&& post.focus_history == pre.focus_history
                &&& post.next_id() == pre.next_id()
            }
    }

    /// How `set_window_geometry` relates the state before (`pre`) and after (`post`) the call.
    pub open spec fn set_geometry_post(pre: State, post: State, id: WindowId, rect: Rect, r: Result<(), StateError>) -> bool {
        &&& !pre.windows@.contains_key(id.0) ==> {
                &&& r == Err::<(), StateError>(StateError::WindowNotFound(id))
                &&& post == pre
            }
        &&& pre.windows@.contains_key(id.0) ==> {
                let w = pre.windows@[id.0];
                &&& r is Ok
                &&& post.windows@ == pre.windows@.insert(
                    id.0,
                    Window { geometry: rect, ..w },
                )
                &&& post.workspaces == pre.workspaces
                &&& post.active_workspace_id == pre.active_workspace_id
                &&& post.previous_workspace_id == pre.previous_workspace_id
                &&& post.special_workspace_active == pre.special_workspace_active
                &&& post.focus_history == pre.focus_history
                &&& post.next_id() == pre.next_id()
            }
    }

    pub fn new() -> (s: State)
        ensures
            s.is_initial(),
            s.wf(),
    {
        let mut workspaces: BTreeMap<u32, Workspace> = BTreeMap::new();
        let mut i: u32 = 1;
        while i <= 9
            invariant
                1 <= i <= 10,
                forall|k: u32| #[trigger]
                    workspaces@.contains_key(k) <==> (1 <= k < i),
                forall|k: u32| #[trigger] workspaces@.contains_key(k) ==> {
                    let ws = workspaces@[k];
                    &&& ws.id == k
                    &&& ws.name@ == decimal(k as nat)
                    &&& ws.layout@ == "master"@
                    &&& ws.windows@.len() == 0
                    &&& ws.focused_window is None
                    &&& ws.output is None
                },
            decreases 10 - i,
        {
            let name = decimal_string(i as u64);
            let ws = Workspace::new(i, name, String::from_str("master"));
            workspaces.insert(i, ws);
            i = i + 1;
        }
        let special = Workspace::new(
            SPECIAL_WORKSPACE_ID,
            String::from_str("special"),
            String::from_str("master"),
        );
        workspaces.insert(SPECIAL_WORKSPACE_ID, special);
        let s = State {
            workspaces,
            windows: BTreeMap::new(),
            active_workspace_id: 1,
            previous_workspace_id: None,
            special_workspace_active: false,
            focus_history: Vec::new(),
            next_window_id: 1,
        };
        proof {
            assert forall|k: u32| 1 <= k <= 9 implies #[trigger] s.workspaces@[k].name@ == decimal(
                k as nat,
            ) by {
                assert(s.workspaces@.contains_key(k));
            }
            assert(s.workspaces@.contains_key(1));
        }
        s
    }

    pub fn active_workspace(&self) -> (ws: &Workspace)
        requires
            self.workspaces@.contains_key(self.active_workspace_id),
        ensures
            *ws == self.workspaces@[self.active_workspace_id],
    {
        self.workspaces.get(&self.active_workspace_id).unwrap()
    }

    pub fn switch_workspace(&mut self, id: u32) -> (r: Result<(), StateError>)
        ensures
            State::switch_post(*old(self), *final(self), id, r),
            old(self).wf() ==> final(self).wf(),
    {
        if !self.workspaces.contains_key(&id) {
            return Err(StateError::WorkspaceNotFound(id));
        }
        if self.active_workspace_id != id {
            self.previous_workspace_id = Some(self.active_workspace_id);
            self.active_workspace_id = id;
        }
        Ok(())
    }

    /// Workspace ids that take part in cycling, in increasing order.
    fn cycle_ids_sorted(&self) -> (ids: Vec<u32>)
        ensures
            strictly_increasing(ids@),
            forall|k: u32| ids@.contains(k) <==> cycle_ids(self.workspaces@.dom()).contains(k),
    {
        let all = sorted_keys(&self.workspaces);
        let mut ids: Vec<u32> = Vec::new();
        let mut i: usize = 0;
        while i < all.len()
            invariant
                strictly_increasing(all@),
                forall|k: u32| all@.contains(k) <==> self.workspaces@.contains_key(k),
                i <= all.len(),
                strictly_increasing(ids@),
                i < all.len() ==> forall|j: int| 0 <= j < ids@.len() ==> ids@[j] < all@[i as int],
                forall|k: u32|
                    ids@.contains(k) <==> (all@.take(i as int).contains(k) && k
                        != SPECIAL_WORKSPACE_ID),
            decreases all.len() - i,
        {
            let k = all[i];
            let ghost before = ids@;
            assert(all@.take(i + 1) =~= all@.take(i as int).push(k));
            if k != SPECIAL_WORKSPACE_ID {
                ids.push(k);
                assert(ids@ =~= before.push(k));
            }
            proof {
                assert forall|q: u32|
                    all@.take(i + 1).contains(q) <==> (all@.take(i as int).contains(q) || q == k) by {
                    if all@.take(i + 1).contains(q) {
                        let t = choose|t: int| 0 <= t < i + 1 && #[trigger] all@.take(i + 1)[t] == q;
                        if t < i {
                            assert(all@.take(i as int)[t] == q);
                        }
                    }
                    if all@.take(i as int).contains(q) {
                        let t = choose|t: int| 0 <= t < i && #[trigger] all@.take(i as int)[t] == q;
                        assert(all@.take(i + 1)[t] == q);
                    }
                    if q == k {
                        assert(all@.take(i + 1)[i as int] == q);
                    }
                }
                assert forall|q: u32|
                    ids@.contains(q) <==> (before.contains(q) || (k != SPECIAL_WORKSPACE_ID && q == k)) by {
                    if k != SPECIAL_WORKSPACE_ID {
                        if ids@.contains(q) && q != k {
                            let j = choose|j: int| 0 <= j < ids@.len() && ids@[j] == q;
                            assert(before[j] == q);
                        }
                        if before.contains(q) {
                            let j = choose|j: int| 0 <= j < before.len() && before[j] == q;
                            assert(ids@[j] == q);
                        }
                        if q == k {
                            assert(ids@[before.len() as int] == q);
                        }
                    }
                }
                if i + 1 < all.len() {
                    assert(k < all@[i + 1]);
                }
            }
            let ghost old_i = i;
            i = i + 1;
            proof {
                assert forall|q: u32|
                    ids@.contains(q) <==> (all@.take(i as int).contains(q) && q
                        != SPECIAL_WORKSPACE_ID) by {
                    assert(all@.take(i as int) == all@.take(old_i + 1));
                    if before.contains(q) {
                        assert(all@.take(old_i as int).contains(q) && q != SPECIAL_WORKSPACE_ID);
                    }
                    if all@.take(old_i as int).contains(q) && q != SPECIAL_WORKSPACE_ID {
                        assert(before.contains(q));
                    }
                }
            }
        }
        proof {
            assert(all@.take(all@.len() as int) =~= all@);
        }
        ids
    }

    /// Next workspace id in cycling order (the special workspace is skipped).
    pub fn next_workspace_id(&self) -> (r: Option<u32>)
        ensures
            r is None <==> cycle_ids(self.workspaces@.dom()).is_empty(),
            r matches Some(n) ==> exists|base: u32|
                #[trigger] cycle_base(cycle_ids(self.workspaces@.dom()), self.active_workspace_id, base)
                    && cyclic_next(cycle_ids(self.workspaces@.dom()), base, n),
    {
        let keys = self.cycle_ids_sorted();
        let ghost ids = cycle_ids(self.workspaces@.dom());
        if keys.len() == 0 {
            proof {
                assert forall|k: u32| !ids.contains(k) by {
                    if ids.contains(k) {
                        assert(keys@.contains(k));
                    }
                }
                assert(ids =~= Set::<u32>::empty());
            }
            return None;
        }
        let pos = keys_position(&keys, self.active_workspace_id);
        let idx: usize = match pos {
            Some(i) => i,
            None => 0,
        };
        assert(pos is None ==> !keys@.contains(self.active_workspace_id));
        assert(pos is Some ==> keys@[idx as int] == self.active_workspace_id);
        let next_idx = if idx + 1 == keys.len() { 0 } else { idx + 1 };
        let n = keys[next_idx];
        let ghost base = keys@[idx as int];
        proof {
            assert(keys@.contains(keys@[0]));
            assert(ids.contains(keys@[0]));
            assert(!ids.is_empty());
            assert forall|k: u32| ids.contains(k) implies keys@[0] <= k by {
                assert(keys@.contains(k));
                let t = choose|t: int| 0 <= t < keys@.len() && keys@[t] == k;
            }
            assert(keys@.contains(base));
            assert(ids.contains(base));
            assert(cycle_base(ids, self.active_workspace_id, base)) by {
                if ids.contains(self.active_workspace_id) {
                    assert(keys@.contains(self.active_workspace_id));
                }
            }
            assert(keys@.contains(n));
            assert(cyclic_next(ids, base, n)) by {
                if next_idx == 0 {
                    assert forall|k: u32| ids.contains(k) implies k <= base by {
                        assert(keys@.contains(k));
                        let t = choose|t: int| 0 <= t < keys@.len() && keys@[t] == k;
                    }
                } else {
                    assert forall|k: u32| ids.contains(k) && base < k implies n <= k by {
                        assert(keys@.contains(k));
                        let t = choose|t: int| 0 <= t < keys@.len() && keys@[t] == k;
                    }
                }
            }
        }
        assert(cycle_base(ids, self.active_workspace_id, base) && cyclic_next(ids, base, n));
        Some(n)
    }

    /// Previous workspace id in cycling order (the special workspace is skipped).
    pub fn prev_workspace_id(&self) -> (r: Option<u32>)
        ensures
            r is None <==> cycle_ids(self.workspaces@.dom()).is_empty(),
            r matches Some(p) ==> exists|base: u32|
                #[trigger] cycle_base(cycle_ids(self.workspaces@.dom()), self.active_workspace_id, base)
                    && cyclic_prev(cycle_ids(self.workspaces@.dom()), base, p),
    {
        let keys = self.cycle_ids_sorted();
        let ghost ids = cycle_ids(self.workspaces@.dom());
        if keys.len() == 0 {
            proof {
                assert forall|k: u32| !ids.contains(k) by {
                    if ids.contains(k) {
                        assert(keys@.contains(k));
                    }
                }
                assert(ids =~= Set::<u32>::empty());
            }
            return None;
        }
        let pos = keys_position(&keys, self.active_workspace_id);
        let idx: usize = match pos {
            Some(i) => i,
            None => 0,
        };
        assert(pos is None ==> !keys@.contains(self.active_workspace_id));
        assert(pos is Some ==> keys@[idx as int] == self.active_workspace_id);
        let prev_idx = if idx == 0 { keys.len() - 1 } else { idx - 1 };
        let p = keys[prev_idx];
        let ghost base = keys@[idx as int];
        proof {
            assert(keys@.contains(keys@[0]));
            assert(ids.contains(keys@[0]));
            assert(!ids.is_empty());
            assert forall|k: u32| ids.contains(k) implies keys@[0] <= k by {
                assert(keys@.contains(k));
                let t = choose|t: int| 0 <= t < keys@.len() && keys@[t] == k;
            }
            assert(keys@.contains(base));
            assert(ids.contains(base));
            assert(cycle_base(ids, self.active_workspace_id, base)) by {
                if ids.contains(self.active_workspace_id) {
                    assert(keys@.contains(self.active_workspace_id));
                }
            }
            assert(keys@.contains(p));
            assert(cyclic_prev(ids, base, p)) by {
                if idx == 0 {
                    assert forall|k: u32| ids.contains(k) implies k <= p by {
                        assert(keys@.contains(k));
                        let t = choose|t: int| 0 <= t < keys@.len() && keys@[t] == k;
                    }
                    assert forall|k: u32| ids.contains(k) implies base <= k by {
                        assert(keys@.contains(k));
                        let t = choose|t: int| 0 <= t < keys@.len() && keys@[t] == k;
                    }
                } else {
                    assert forall|k: u32| ids.contains(k) && k < base implies k <= p by {
                        assert(keys@.contains(k));
                        let t = choose|t: int| 0 <= t < keys@.len() && keys@[t] == k;
                    }
                }
            }
        }
        assert(cycle_base(ids, self.active_workspace_id, base) && cyclic_prev(ids, base, p));
        Some(p)
    }

    /// Toggle visibility of the overlay special / scratchpad workspace; returns the new value.
    pub fn toggle_special_workspace(&mut self) -> (visible: bool)
        ensures
            visible == !old(self).special_workspace_active,
            final(self).special_workspace_active == visible,
            final(self).workspaces == old(self).workspaces,
            final(self).windows == old(self).windows,
            final(self).active_workspace_id == old(self).active_workspace_id,
            final(self).previous_workspace_id == old(self).previous_workspace_id,
            final(self).focus_history == old(self).focus_history,
            final(self).next_id() == old(self).next_id(),
            old(self).wf() ==> final(self).wf(),
    {
        self.special_workspace_active = !self.special_workspace_active;
        self.special_workspace_active
    }

    /// Record a window focus event in most-recently-used order.
    pub fn record_focus(&mut self, id: WindowId)
        ensures
            final(self).focus_history@ == without(old(self).focus_history@, id).push(id),
            final(self).workspaces == old(self).workspaces,
            final(self).windows == old(self).windows,
            final(self).active_workspace_id == old(self).active_workspace_id,
            final(self).previous_workspace_id == old(self).previous_workspace_id,
            final(self).special_workspace_active == old(self).special_workspace_active,
            final(self).next_id() == old(self).next_id(),
            old(self).wf() ==> final(self).wf(),
    {
        let mut h = vec_without(&self.focus_history, id);
        h.push(id);
        self.focus_history = h;
    }

    /// The test `last_focused_window` applies: not the current focus, managed, and (when
    /// `same_workspace`) placed on workspace `ws_id`.
    pub open spec fn recent_candidate(
        &self,
        ws_id: u32,
        current: Option<WindowId>,
        same_workspace: bool,
    ) -> spec_fn(WindowId) -> bool {
        |w: WindowId|
            current != Some(w) && self.windows@.contains_key(w.0) && (!same_workspace
                || self.windows@[w.0].workspace_id == ws_id)
    }

    /// The window `last_focused_window(workspace_id)` picks.
    pub open spec fn last_focused_spec(&self, workspace_id: Option<u32>) -> Option<WindowId> {
        let ws_id = match workspace_id {
            Some(w) => w,
            None => self.active_workspace_id,
        };
        let current = if self.workspaces@.contains_key(ws_id) {
            self.workspaces@[ws_id].focused_window
        } else {
            None
        };
        match last_satisfying(self.focus_history@, self.recent_candidate(ws_id, current, true)) {
            Some(w) => Some(w),
            None => if self.workspaces@.contains_key(ws_id) {
                last_satisfying(
                    self.workspaces@[ws_id].windows@,
                    self.recent_candidate(ws_id, current, false),
                )
            } else {
                None
            },
        }
    }

    /// The last active window on the given workspace (or the active one), other than the
    /// window that workspace currently focuses: the most recent such entry of the focus
    /// history, else the last such window the workspace lists.
    pub fn last_focused_window(&self, workspace_id: Option<u32>) -> (r: Option<WindowId>)
        ensures
            r == self.last_focused_spec(workspace_id),
    {
        let ws_id = match workspace_id {
            Some(w) => w,
            None => self.active_workspace_id,
        };
        let current = match self.workspaces.get(&ws_id) {
            Some(ws) => ws.focused_window,
            None => None,
        };
        match last_accepted_focus(&self.focus_history, self, ws_id, current, true) {
            Some(w) => Some(w),
            None => match self.workspaces.get(&ws_id) {
                Some(ws) => last_accepted_focus(&ws.windows, self, ws_id, current, false),
                None => None,
            },
        }
    }

    /// The workspace to show on output `output_name`: the active one when it belongs there
    /// (or neither names an output); else the least-numbered workspace on that output that
    /// holds windows, else the least-numbered one on that output, else the active one.
    #[verifier::loop_isolation(false)]
    pub fn active_workspace_for_output(&self, output_name: Option<&str>) -> (ws: &Workspace)
        requires
            self.workspaces@.contains_key(self.active_workspace_id),
        ensures
            ({
                let active = self.workspaces@[self.active_workspace_id];
                let m = self.workspaces@;
                if output_matches(active.output, opt_view(output_name)) || output_name is None {
                    *ws == active
                } else {
                    let name = output_name->0@;
                    if exists|k: u32| #[trigger] least_key_with(m, occupied_on_output(name), k) {
                        exists|k: u32|
                            #[trigger] least_key_with(m, occupied_on_output(name), k) && *ws == m[k]
                    } else if exists|k: u32| #[trigger] least_key_with(m, on_output(name), k) {
                        exists|k: u32| #[trigger] least_key_with(m, on_output(name), k) && *ws == m[k]
                    } else {
                        *ws == active
                    }
                }
            }),
    {
        let active = self.active_workspace();
        if output_is(&active.output, output_name) {
            return active;
        }
        match output_name {
            None => active,
            Some(name) => {
                let ids = sorted_keys(&self.workspaces);
                let ghost m = self.workspaces@;
                let mut pass: usize = 0;
                while pass < 2
                    invariant
                        m == self.workspaces@,
                        pass <= 2,
                        strictly_increasing(ids@),
                        forall|k: u32| ids@.contains(k) <==> m.contains_key(k),
                        pass >= 1 ==> !exists|k: u32| #[trigger] least_key_with(m, occupied_on_output(name@), k),
                        pass >= 1 ==> forall|k: u32| m.contains_key(k) ==> !(#[trigger] occupied_on_output(name@)(m[k])),
                        pass >= 2 ==> forall|k: u32| m.contains_key(k) ==> !(#[trigger] on_output(name@)(m[k])),
                    decreases 2 - pass,
                {
                    let ghost p = if pass == 0 { occupied_on_output(name@) } else { on_output(name@) };
                    let mut i: usize = 0;
                    while i < ids.len()
                        invariant
                            m == self.workspaces@,
                            pass < 2,
                            p == if pass == 0 { occupied_on_output(name@) } else { on_output(name@) },
                            i <= ids.len(),
                            strictly_increasing(ids@),
                            forall|k: u32| ids@.contains(k) <==> m.contains_key(k),
                            forall|j: int| 0 <= j < i ==> !p(m[#[trigger] ids@[j]]),
                            pass >= 1 ==> forall|k: u32| m.contains_key(k) ==> !(#[trigger] occupied_on_output(name@)(m[k])),
                        decreases ids.len() - i,
                    {
                        let k = ids[i];
                        assert(ids@.contains(k));
                        let ws = self.workspaces.get(&k).unwrap();
                        let ok = output_is(&ws.output, Some(name)) && (pass == 1 || ws.windows.len() > 0);
                        if ok {
                            proof {
                                assert(p(m[k]));
                                assert forall|j: u32| m.contains_key(j) && p(m[j]) implies k <= j by {
                                    assert(ids@.contains(j));
                                    let t = choose|t: int| 0 <= t < ids@.len() && ids@[t] == j;
                                    if t < i {
                                    }
                                }
                                assert(least_key_with(m, p, k));
                                if pass == 1 {
                                    assert forall|k2: u32| !#[trigger] least_key_with(m, occupied_on_output(name@), k2) by {
                                        if m.contains_key(k2) {
                                            assert(!occupied_on_output(name@)(m[k2]));
                                        }
                                    }
                                }
                            }
                            return ws;
                        }
                        i = i + 1;
                    }
                    proof {
                        assert forall|k: u32| m.contains_key(k) implies !p(m[k]) by {
                            assert(ids@.contains(k));
                            let t = choose|t: int| 0 <= t < ids@.len() && ids@[t] == k;
                        }
                    }
                    pass = pass + 1;
                }
                active
            },
        }
    }

    /// The active workspace, for editing in place.
    pub fn active_workspace_mut(&mut self) -> (ws: &mut Workspace)
        requires
            old(self).workspaces@.contains_key(old(self).active_workspace_id),
        ensures
            *ws == old(self).workspaces@[old(self).active_workspace_id],
            final(self).workspaces@ == old(self).workspaces@.insert(
                old(self).active_workspace_id,
                *final(ws),
            ),
            final(self).windows == old(self).windows,
            final(self).active_workspace_id == old(self).active_workspace_id,
            final(self).previous_workspace_id == old(self).previous_workspace_id,
            final(self).special_workspace_active == old(self).special_workspace_active,
            final(self).focus_history == old(self).focus_history,
            final(self).next_id() == old(self).next_id(),
    {
        let a = self.active_workspace_id;
        keys::value_mut(&mut self.workspaces, a)
    }

    /// Leaves the active workspace with no focused window (the pointer clicked the
    /// background).
    pub fn clear_active_focus(&mut self)
        requires
            old(self).wf(),
        ensures
            final(self).workspaces@ == old(self).workspaces@.insert(
                old(self).active_workspace_id,
                (Workspace { focused_window: None, ..old(self).workspaces@[old(self).active_workspace_id] }),
            ),
            final(self).windows == old(self).windows,
            final(self).active_workspace_id == old(self).active_workspace_id,
            final(self).previous_workspace_id == old(self).previous_workspace_id,
            final(self).special_workspace_active == old(self).special_workspace_active,
            final(self).focus_history == old(self).focus_history,
            final(self).next_id() == old(self).next_id(),
            final(self).wf(),
    {
        let ghost pre = *self;
        let ws = self.active_workspace_mut();
        ws.focused_window = None;
        proof {
            let k = pre.active_workspace_id;
            assert(self.workspaces@[k].windows@ == pre.workspaces@[k].windows@);
            self.lemma_workspace_edit_wf(pre, k);
        }
    }

    /// Creates a window on the given workspace (or the active one) and returns its id.
    /// The workspace lists the new window and focuses it when it had no focus; a window that
    /// got the focus is recorded in the focus history.
    pub fn create_window(&mut self, workspace_id: Option<u32>) -> (r: Result<WindowId, StateError>)
        requires
            old(self).next_id() < u64::MAX,
        ensures
            State::create_post(*old(self), *final(self), workspace_id, r),
            old(self).wf() ==> final(self).wf(),
    {
        let target = match workspace_id {
            Some(w) => w,
            None => self.active_workspace_id,
        };
        if !self.workspaces.contains_key(&target) {
            return Err(StateError::WorkspaceNotFound(target));
        }
        let ghost pre = *self;
        let id = WindowId(self.next_window_id);
        self.next_window_id = self.next_window_id + 1;
        let window = Window::new(id, target);
        self.windows.insert(id.0, window);
        let mut ws = self.workspaces.remove(&target).unwrap();
        let ghost old_ws = ws;
        ws.add_window(id);
        let focused_new = is_some_window(ws.focused_window, id);
        self.workspaces.insert(target, ws);
        proof {
            assert(self.workspaces@ =~= pre.workspaces@.insert(target, self.workspaces@[target]));
            if pre.wf() {
                assert(!pre.windows@.contains_key(id.0));
                assert(!old_ws.windows@.contains(id)) by {
                    if old_ws.windows@.contains(id) {
                        let i = choose|i: int| 0 <= i < old_ws.windows@.len() && old_ws.windows@[i] == id;
                        assert(pre.workspaces@[target].windows@[i] == id);
                    }
                }
                self.lemma_created_wf(pre, id, target);
            }
        }
        if focused_new {
            self.record_focus(id);
        }
        Ok(id)
    }

    proof fn lemma_created_wf(&self, pre: State, id: WindowId, target: u32)
        requires
            pre.wf(),
            pre.workspaces@.contains_key(target),
            id.0 == pre.next_id(),
            self.next_id() == pre.next_id() + 1,
            !pre.windows@.contains_key(id.0),
            !pre.workspaces@[target].windows@.contains(id),
            self.windows@ == pre.windows@.insert(id.0, self.windows@[id.0]),
            self.windows@[id.0].fresh(id, target),
            self.workspaces@ == pre.workspaces@.insert(target, self.workspaces@[target]),
            self.workspaces@[target].windows@ == pre.workspaces@[target].windows@.push(id),
            self.workspaces@[target].same_identity(pre.workspaces@[target]),
            self.workspaces@[target].wf(),
            self.active_workspace_id == pre.active_workspace_id,
        ensures
            self.wf(),
    {
        let nl = self.workspaces@[target].windows@;
        assert forall|k: u32| #[trigger] self.workspaces@.contains_key(k) implies {
            &&& self.workspaces@[k].id == k
            &&& self.workspaces@[k].wf()
        } by {
            if k != target {
                assert(pre.workspaces@.contains_key(k));
            }
        }
        assert forall|w: u64| #[trigger] self.windows@.contains_key(w) implies {
            &&& self.windows@[w].id == WindowId(w)
            &&& w < self.next_id()
            &&& self.workspaces@.contains_key(self.windows@[w].workspace_id)
            &&& self.workspaces@[self.windows@[w].workspace_id].windows@.contains(WindowId(w))
        } by {
            if w == id.0 {
                assert(nl[nl.len() - 1] == id);
            } else {
                assert(pre.windows@.contains_key(w));
                let wk = pre.windows@[w].workspace_id;
                if wk == target {
                    let i = choose|i: int| 0 <= i < pre.workspaces@[target].windows@.len()
                        && pre.workspaces@[target].windows@[i] == WindowId(w);
                    assert(nl[i] == WindowId(w));
                }
            }
        }
        assert forall|k: u32, i: int|
            #![trigger self.workspaces@[k].windows@[i]]
            self.workspaces@.contains_key(k) && 0 <= i < self.workspaces@[k].windows@.len() implies {
                let w = self.workspaces@[k].windows@[i];
                &&& self.windows@.contains_key(w.0)
                &&& self.windows@[w.0].workspace_id == k
            } by {
            if k == target {
                if i < nl.len() - 1 {
                    assert(nl[i] == pre.workspaces@[target].windows@[i]);
                    assert(pre.workspaces@[target].windows@[i].0 != id.0);
                }
            } else {
                assert(pre.workspaces@[k].windows@[i].0 != id.0);
            }
        }
    }

    /// Removes a window from the state and from its workspace's list; the workspace's new
    /// focus (if any) is recorded, and the window leaves the focus history.
    pub fn remove_window(&mut self, id: WindowId) -> (r: Result<(), StateError>)
        ensures
            State::remove_post(*old(self), *final(self), id, r),
            old(self).wf() ==> final(self).wf(),
    {
        if !self.windows.contains_key(&id.0) {
            return Err(StateError::WindowNotFound(id));
        }
        let ghost pre = *self;
        let window = self.windows.remove(&id.0).unwrap();
        let wk = window.workspace_id;
        if self.workspaces.contains_key(&wk) {
            let mut ws = self.workspaces.remove(&wk).unwrap();
            let ghost ow = ws;
            ws.remove_window(id);
            if let Some(new_focus) = ws.focused_window {
                self.record_focus(new_focus);
            }
            self.workspaces.insert(wk, ws);
            proof {
                assert(self.workspaces@ =~= pre.workspaces@.insert(wk, self.workspaces@[wk]));
                workspace::lemma_without(ow.windows@, id);
            }
        }
        self.focus_history = vec_without(&self.focus_history, id);
        proof {
            if pre.wf() {
                self.lemma_removed_wf(pre, id);
            }
        }
        Ok(())
    }

    proof fn lemma_removed_wf(&self, pre: State, id: WindowId)
        requires
            pre.wf(),
            pre.windows@.contains_key(id.0),
            self.windows@ == pre.windows@.remove(id.0),
            self.workspaces@ == pre.workspaces@.insert(
                pre.windows@[id.0].workspace_id,
                self.workspaces@[pre.windows@[id.0].workspace_id],
            ),
            self.workspaces@[pre.windows@[id.0].workspace_id].windows@ == without(
                pre.workspaces@[pre.windows@[id.0].workspace_id].windows@,
                id,
            ),
            self.workspaces@[pre.windows@[id.0].workspace_id].same_identity(
                pre.workspaces@[pre.windows@[id.0].workspace_id],
            ),
            self.workspaces@[pre.windows@[id.0].workspace_id].wf(),
            self.active_workspace_id == pre.active_workspace_id,
            self.next_id() == pre.next_id(),
        ensures
            self.wf(),
    {
        let wk = pre.windows@[id.0].workspace_id;
        let ol = pre.workspaces@[wk].windows@;
        let nl = self.workspaces@[wk].windows@;
        workspace::lemma_without(ol, id);
        assert forall|k: u32| #[trigger] self.workspaces@.contains_key(k) implies {
            &&& self.workspaces@[k].id == k
            &&& self.workspaces@[k].wf()
        } by {
            if k != wk {
                assert(pre.workspaces@.contains_key(k));
            }
        }
        assert forall|w: u64| #[trigger] self.windows@.contains_key(w) implies {
            &&& self.windows@[w].id == WindowId(w)
            &&& w < self.next_id()
            &&& self.workspaces@.contains_key(self.windows@[w].workspace_id)
            &&& self.workspaces@[self.windows@[w].workspace_id].windows@.contains(WindowId(w))
        } by {
            assert(pre.windows@.contains_key(w));
            assert(w != id.0);
        }
        assert forall|k: u32, i: int|
            #![trigger self.workspaces@[k].windows@[i]]
            self.workspaces@.contains_key(k) && 0 <= i < self.workspaces@[k].windows@.len() implies {
                let w = self.workspaces@[k].windows@[i];
                &&& self.windows@.contains_key(w.0)
                &&& self.windows@[w.0].workspace_id == k
            } by {
            let w = self.workspaces@[k].windows@[i];
            if k == wk {
                assert(nl.contains(w));
                assert(w != id);
                assert(ol.contains(w));
                let j = choose|j: int| 0 <= j < ol.len() && ol[j] == w;
                assert(pre.workspaces@[wk].windows@[j] == w);
            } else {
                assert(pre.workspaces@[k].windows@[i] == w);
                assert(pre.windows@[w.0].workspace_id == k);
            }
        }
    }

    /// Focuses a window: its workspace becomes the active one (remembering the previous
    /// active workspace when it changes), focuses it, and the focus is recorded.
    pub fn focus_window(&mut self, id: WindowId) -> (r: Result<(), StateError>)
        requires
            old(self).windows@.contains_key(id.0) ==> old(self).workspaces@.contains_key(
                old(self).windows@[id.0].workspace_id,
            ),
        ensures
            State::focus_post(*old(self), *final(self), id, r),
            old(self).wf() ==> final(self).wf(),
    {
        if !self.windows.contains_key(&id.0) {
            return Err(StateError::WindowNotFound(id));
        }
        let ghost pre = *self;
        let wk = self.windows.get(&id.0).unwrap().workspace_id;
        if wk != self.active_workspace_id {
            self.previous_workspace_id = Some(self.active_workspace_id);
            self.active_workspace_id = wk;
        }
        let mut ws = self.workspaces.remove(&wk).unwrap();
        ws.focused_window = Some(id);
        self.workspaces.insert(wk, ws);
        proof {
            assert(self.workspaces@ =~= pre.workspaces@.insert(wk, self.workspaces@[wk]));
            if pre.wf() {
                assert forall|k: u32| #[trigger] self.workspaces@.contains_key(k) implies {
                    &&& self.workspaces@[k].id == k
                    &&& self.workspaces@[k].wf()
                } by {
                    if k != wk {
                        assert(pre.workspaces@.contains_key(k));
                    }
                }
                assert forall|w: u64| #[trigger] self.windows@.contains_key(w) implies {
                    &&& self.windows@[w].id == WindowId(w)
                    &&& w < self.next_id()
                    &&& self.workspaces@.contains_key(self.windows@[w].workspace_id)
                    &&& self.workspaces@[self.windows@[w].workspace_id].windows@.contains(WindowId(w))
                } by {
                    assert(pre.windows@.contains_key(w));
                }
                assert forall|k: u32, i: int|
                    #![trigger self.workspaces@[k].windows@[i]]
                    self.workspaces@.contains_key(k) && 0 <= i < self.workspaces@[k].windows@.len() implies {
                        let w = self.workspaces@[k].windows@[i];
                        &&& self.windows@.contains_key(w.0)
                        &&& self.windows@[w.0].workspace_id == k
                    } by {
                    assert(pre.workspaces@[k].windows@[i] == self.workspaces@[k].windows@[i]);
                }
            }
        }
        self.record_focus(id);
        Ok(())
    }

    /// Moves a window to another workspace: it leaves the old workspace's list and joins the
    /// target's list.
    pub fn move_window_to_workspace(&mut self, window_id: WindowId, target_ws_id: u32) -> (r:
        Result<(), StateError>)
        ensures
            State::move_post(*old(self), *final(self), window_id, target_ws_id, r),
            old(self).wf() ==> final(self).wf(),
    {
        if !self.workspaces.contains_key(&target_ws_id) {
            return Err(StateError::WorkspaceNotFound(target_ws_id));
        }
        if !self.windows.contains_key(&window_id.0) {
            return Err(StateError::WindowNotFound(window_id));
        }
        let current_ws_id = self.windows.get(&window_id.0).unwrap().workspace_id;
        if current_ws_id == target_ws_id {
            return Ok(());
        }
        let ghost pre = *self;
        if self.workspaces.contains_key(&current_ws_id) {
            let mut cur = self.workspaces.remove(&current_ws_id).unwrap();
            cur.remove_window(window_id);
            self.workspaces.insert(current_ws_id, cur);
        }
        let ghost mid = self.workspaces@;
        let mut window = self.windows.remove(&window_id.0).unwrap();
        window.workspace_id = target_ws_id;
        self.windows.insert(window_id.0, window);
        let mut target = self.workspaces.remove(&target_ws_id).unwrap();
        target.add_window(window_id);
        self.workspaces.insert(target_ws_id, target);
        proof {
            assert(self.windows@ =~= pre.windows@.insert(
                window_id.0,
                Window { workspace_id: target_ws_id, ..pre.windows@[window_id.0] },
            ));
            if pre.workspaces@.contains_key(current_ws_id) {
                assert(self.workspaces@ =~= pre.workspaces@.insert(
                    current_ws_id,
                    self.workspaces@[current_ws_id],
                ).insert(target_ws_id, self.workspaces@[target_ws_id]));
            } else {
                assert(self.workspaces@ =~= pre.workspaces@.insert(
                    target_ws_id,
                    self.workspaces@[target_ws_id],
                ));
            }
            if pre.wf() {
                self.lemma_moved_wf(pre, window_id, target_ws_id);
            }
        }
        Ok(())
    }

    proof fn lemma_moved_wf(&self, pre: State, id: WindowId, target: u32)
        requires
            pre.wf(),
            pre.windows@.contains_key(id.0),
            pre.workspaces@.contains_key(target),
            pre.windows@[id.0].workspace_id != target,
            self.windows@ == pre.windows@.insert(
                id.0,
                Window { workspace_id: target, ..pre.windows@[id.0] },
            ),
            self.workspaces@ == pre.workspaces@.insert(
                pre.windows@[id.0].workspace_id,
                self.workspaces@[pre.windows@[id.0].workspace_id],
            ).insert(target, self.workspaces@[target]),
            self.workspaces@[pre.windows@[id.0].workspace_id].windows@ == without(
                pre.workspaces@[pre.windows@[id.0].workspace_id].windows@,
                id,
            ),
            self.workspaces@[pre.windows@[id.0].workspace_id].same_identity(
                pre.workspaces@[pre.windows@[id.0].workspace_id],
            ),
            self.workspaces@[pre.windows@[id.0].workspace_id].wf(),
            self.workspaces@[target].windows@ == list_after_add(pre.workspaces@[target].windows@, id),
            self.workspaces@[target].same_identity(pre.workspaces@[target]),
            self.workspaces@[target].wf(),
            self.active_workspace_id == pre.active_workspace_id,
            self.next_id() == pre.next_id(),
        ensures
            self.wf(),
    {
        let cur = pre.windows@[id.0].workspace_id;
        let oc = pre.workspaces@[cur].windows@;
        let nc = self.workspaces@[cur].windows@;
        let ot = pre.workspaces@[target].windows@;
        let nt = self.workspaces@[target].windows@;
        workspace::lemma_without(oc, id);
        assert(!ot.contains(id)) by {
            if ot.contains(id) {
                let j = choose|j: int| 0 <= j < ot.len() && ot[j] == id;
                assert(pre.workspaces@[target].windows@[j] == id);
            }
        }
        assert(nt == ot.push(id));
        assert forall|k: u32| #[trigger] self.workspaces@.contains_key(k) implies {
            &&& self.workspaces@[k].id == k
            &&& self.workspaces@[k].wf()
        } by {
            if k != cur && k != target {
                assert(pre.workspaces@.contains_key(k));
            }
        }
        assert forall|w: u64| #[trigger] self.windows@.contains_key(w) implies {
            &&& self.windows@[w].id == WindowId(w)
            &&& w < self.next_id()
            &&& self.workspaces@.contains_key(self.windows@[w].workspace_id)
            &&& self.workspaces@[self.windows@[w].workspace_id].windows@.contains(WindowId(w))
        } by {
            if w == id.0 {
                assert(nt[nt.len() - 1] == id);
            } else {
                assert(pre.windows@.contains_key(w));
                let wk = pre.windows@[w].workspace_id;
                assert(pre.workspaces@[wk].windows@.contains(WindowId(w)));
                let j = choose|j: int| 0 <= j < pre.workspaces@[wk].windows@.len()
                    && pre.workspaces@[wk].windows@[j] == WindowId(w);
                if wk == target {
                    assert(nt[j] == WindowId(w));
                } else if wk == cur {
                    assert(oc[j] == WindowId(w));
                    assert(nc.contains(WindowId(w)));
                }
            }
        }
        assert forall|k: u32, i: int|
            #![trigger self.workspaces@[k].windows@[i]]
            self.workspaces@.contains_key(k) && 0 <= i < self.workspaces@[k].windows@.len() implies {
                let w = self.workspaces@[k].windows@[i];
                &&& self.windows@.contains_key(w.0)
                &&& self.windows@[w.0].workspace_id == k
            } by {
            let w = self.workspaces@[k].windows@[i];
            if k == target {
                if i < ot.len() {
                    assert(ot[i] == w);
                    assert(pre.workspaces@[target].windows@[i] == w);
                    assert(w != id);
                }
            } else if k == cur {
                assert(nc.contains(w));
                assert(w != id);
                assert(oc.contains(w));
                let j = choose|j: int| 0 <= j < oc.len() && oc[j] == w;
                assert(pre.workspaces@[cur].windows@[j] == w);
            } else {
                assert(pre.workspaces@[k].windows@[i] == w);
                assert(w.0 != id.0);
            }
        }
    }

    /// Editing one window's own fields (not its id or workspace) keeps the invariant.
    proof fn lemma_window_edit_wf(&self, pre: State, id: u64)
        requires
            pre.wf(),
            pre.windows@.contains_key(id),
            self.windows@.contains_key(id),
            self.windows@ == pre.windows@.insert(id, self.windows@[id]),
            self.windows@[id].id == pre.windows@[id].id,
            self.windows@[id].workspace_id == pre.windows@[id].workspace_id,
            self.workspaces@ == pre.workspaces@,
            self.active_workspace_id == pre.active_workspace_id,
            self.next_id() == pre.next_id(),
        ensures
            self.wf(),
    {
        assert forall|w: u64| #[trigger] self.windows@.contains_key(w) implies {
            &&& self.windows@[w].id == WindowId(w)
            &&& w < self.next_id()
            &&& self.workspaces@.contains_key(self.windows@[w].workspace_id)
            &&& self.workspaces@[self.windows@[w].workspace_id].windows@.contains(WindowId(w))
        } by {
            assert(pre.windows@.contains_key(w));
        }
        assert forall|k: u32, i: int|
            #![trigger self.workspaces@[k].windows@[i]]
            self.workspaces@.contains_key(k) && 0 <= i < self.workspaces@[k].windows@.len() implies {
                let w = self.workspaces@[k].windows@[i];
                &&& self.windows@.contains_key(w.0)
                &&& self.windows@[w.0].workspace_id == k
            } by {
            assert(pre.workspaces@[k].windows@[i] == self.workspaces@[k].windows@[i]);
        }
    }

    pub fn toggle_floating(&mut self, id: WindowId) -> (r: Result<bool, StateError>)
        ensures
            State::toggle_floating_post(*old(self), *final(self), id, r),
            old(self).wf() ==> final(self).wf(),
    {
        if !self.windows.contains_key(&id.0) {
            return Err(StateError::WindowNotFound(id));
        }
        let ghost pre = *self;
        let mut w = self.windows.remove(&id.0).unwrap();
        w.floating = !w.floating;
        let v = w.floating;
        self.windows.insert(id.0, w);
        proof {
            assert(self.windows@ =~= pre.windows@.insert(id.0, self.windows@[id.0]));
            if pre.wf() {
                self.lemma_window_edit_wf(pre, id.0);
            }
        }
        Ok(v)
    }

    pub fn toggle_pinned(&mut self, id: WindowId) -> (r: Result<bool, StateError>)
        ensures
            State::toggle_pinned_post(*old(self), *final(self), id, r),
            old(self).wf() ==> final(self).wf(),
    {
        if !self.windows.contains_key(&id.0) {
            return Err(StateError::WindowNotFound(id));
        }
        let ghost pre = *self;
        let mut w = self.windows.remove(&id.0).unwrap();
        w.pinned = !w.pinned;
        let v = w.pinned;
        self.windows.insert(id.0, w);
        proof {
            assert(self.windows@ =~= pre.windows@.insert(id.0, self.windows@[id.0]));
            if pre.wf() {
                self.lemma_window_edit_wf(pre, id.0);
            }
        }
        Ok(v)
    }

    pub fn toggle_fullscreen(&mut self, id: WindowId) -> (r: Result<bool, StateError>)
        ensures
            State::toggle_fullscreen_post(*old(self), *final(self), id, r),
            old(self).wf() ==> final(self).wf(),
    {
        if !self.windows.contains_key(&id.0) {
            return Err(StateError::WindowNotFound(id));
        }
        let ghost pre = *self;
        let mut w = self.windows.remove(&id.0).unwrap();
        w.toggle_fullscreen();
        let v = w.fullscreen;
        self.windows.insert(id.0, w);
        proof {
            assert(self.windows@ =~= pre.windows@.insert(id.0, self.windows@[id.0]));
            if pre.wf() {
                self.lemma_window_edit_wf(pre, id.0);
            }
        }
        Ok(v)
    }

    pub fn toggle_maximized(&mut self, id: WindowId) -> (r: Result<bool, StateError>)
        ensures
            State::toggle_maximized_post(*old(self), *final(self), id, r),
            old(self).wf() ==> final(self).wf(),
    {
        if !self.windows.contains_key(&id.0) {
            return Err(StateError::WindowNotFound(id));
        }
        let ghost pre = *self;
        let mut w = self.windows.remove(&id.0).unwrap();
        w.toggle_maximized();
        let v = w.maximized;
        self.windows.insert(id.0, w);
        proof {
            assert(self.windows@ =~= pre.windows@.insert(id.0, self.windows@[id.0]));
            if pre.wf() {
                self.lemma_window_edit_wf(pre, id.0);
            }
        }
        Ok(v)
    }

    /// `post` is `pre` with window `id` replaced by `w` and `r` is `Ok`; when `id` is not
    /// managed, `post` is `pre` and `r` reports it.
    pub open spec fn window_edit_post(pre: State, post: State, id: WindowId, w: Window, r: Result<(), StateError>) -> bool {
        &&& !pre.windows@.contains_key(id.0) ==> {
                &&& r == Err::<(), StateError>(StateError::WindowNotFound(id))
                &&& post == pre
            }
        &&& pre.windows@.contains_key(id.0) ==> {
                &&& r is Ok
                &&& post.windows@ == pre.windows@.insert(id.0, w)
                &&& post.workspaces == pre.workspaces
                &&& post.active_workspace_id == pre.active_workspace_id
                &&& post.previous_workspace_id == pre.previous_workspace_id
                &&& post.special_workspace_active == pre.special_workspace_active
                &&& post.focus_history == pre.focus_history
                &&& post.next_id() == pre.next_id()
            }
    }

    /// Records the application id a window's client announced.
    pub fn set_app_id(&mut self, id: WindowId, app_id: Option<String>) -> (r: Result<(), StateError>)
        ensures
            State::window_edit_post(*old(self), *final(self), id, (Window { app_id, ..old(self).windows@[id.0] }), r),
            old(self).wf() ==> final(self).wf(),
    {
        if !self.windows.contains_key(&id.0) {
            return Err(StateError::WindowNotFound(id));
        }
        let ghost pre = *self;
        let mut w = self.windows.remove(&id.0).unwrap();
        w.app_id = app_id;
        self.windows.insert(id.0, w);
        proof {
            assert(self.windows@ =~= pre.windows@.insert(id.0, self.windows@[id.0]));
            if pre.wf() {
                self.lemma_window_edit_wf(pre, id.0);
            }
        }
        Ok(())
    }

    /// Records the title a window's client announced.
    pub fn set_title(&mut self, id: WindowId, title: Option<String>) -> (r: Result<(), StateError>)
        ensures
            State::window_edit_post(*old(self), *final(self), id, (Window { title, ..old(self).windows@[id.0] }), r),
            old(self).wf() ==> final(self).wf(),
    {
        if !self.windows.contains_key(&id.0) {
            return Err(StateError::WindowNotFound(id));
        }
        let ghost pre = *self;
        let mut w = self.windows.remove(&id.0).unwrap();
        w.title = title;
        self.windows.insert(id.0, w);
        proof {
            assert(self.windows@ =~= pre.windows@.insert(id.0, self.windows@[id.0]));
            if pre.wf() {
                self.lemma_window_edit_wf(pre, id.0);
            }
        }
        Ok(())
    }

    pub fn set_window_geometry(&mut self, id: WindowId, rect: Rect) -> (r: Result<(), StateError>)
        ensures
            State::set_geometry_post(*old(self), *final(self), id, rect, r),
            old(self).wf() ==> final(self).wf(),
    {
        if !self.windows.contains_key(&id.0) {
            return Err(StateError::WindowNotFound(id));
        }
        let ghost pre = *self;
        let mut w = self.windows.remove(&id.0).unwrap();
        w.geometry = rect;
        self.windows.insert(id.0, w);
        proof {
            assert(self.windows@ =~= pre.windows@.insert(id.0, self.windows@[id.0]));
            if pre.wf() {
                self.lemma_window_edit_wf(pre, id.0);
            }
        }
        Ok(())
    }

    /// Replacing a workspace by one with the same identity that lists the same windows keeps
    /// the invariant.
    /// Replacing one workspace by a well-formed one with the same id and the same set of
    /// windows keeps the state well formed.
    pub proof fn lemma_workspace_edit_wf(&self, pre: State, k: u32)
        requires
            pre.wf(),
            pre.workspaces@.contains_key(k),
            self.workspaces@ == pre.workspaces@.insert(k, self.workspaces@[k]),
            self.workspaces@[k].id == pre.workspaces@[k].id,
            self.workspaces@[k].wf(),
            forall|w: WindowId|
                self.workspaces@[k].windows@.contains(w) <==> pre.workspaces@[k].windows@.contains(w),
            self.windows@ == pre.windows@,
            self.active_workspace_id == pre.active_workspace_id,
            self.next_id() == pre.next_id(),
        ensures
            self.wf(),
    {
        assert forall|j: u32| #[trigger] self.workspaces@.contains_key(j) implies {
            &&& self.workspaces@[j].id == j
            &&& self.workspaces@[j].wf()
        } by {
            if j != k {
                assert(pre.workspaces@.contains_key(j));
            }
        }
        assert forall|w: u64| #[trigger] self.windows@.contains_key(w) implies {
            &&& self.windows@[w].id == WindowId(w)
            &&& w < self.next_id()
            &&& self.workspaces@.contains_key(self.windows@[w].workspace_id)
            &&& self.workspaces@[self.windows@[w].workspace_id].windows@.contains(WindowId(w))
        } by {
            assert(pre.windows@.contains_key(w));
        }
        assert forall|j: u32, i: int|
            #![trigger self.workspaces@[j].windows@[i]]
            self.workspaces@.contains_key(j) && 0 <= i < self.workspaces@[j].windows@.len() implies {
                let w = self.workspaces@[j].windows@[i];
                &&& self.windows@.contains_key(w.0)
                &&& self.windows@[w.0].workspace_id == j
            } by {
            let w = self.workspaces@[j].windows@[i];
            if j == k {
                assert(self.workspaces@[k].windows@.contains(w));
                let t = choose|t: int| 0 <= t < pre.workspaces@[k].windows@.len()
                    && pre.workspaces@[k].windows@[t] == w;
                assert(pre.workspaces@[k].windows@[t] == w);
            } else {
                assert(pre.workspaces@[j].windows@[i] == w);
            }
        }
    }

    /// A copy of the state, equal to it field by field.
    pub fn duplicate(&self) -> (r: State)
        ensures
            r.same_as(self),
    {
        State {
            workspaces: self.workspaces.clone(),
            windows: self.windows.clone(),
            active_workspace_id: self.active_workspace_id,
            previous_workspace_id: self.previous_workspace_id,
            special_workspace_active: self.special_workspace_active,
            focus_history: self.focus_history.clone(),
            next_window_id: self.next_window_id,
        }
    }

    /// `self` and `other` hold the same state.
    pub open spec fn same_as(&self, other: &State) -> bool {
        &&& self.workspaces@ == other.workspaces@
        &&& self.windows@ == other.windows@
        &&& self.active_workspace_id == other.active_workspace_id
        &&& self.previous_workspace_id == other.previous_workspace_id
        &&& self.special_workspace_active == other.special_workspace_active
        &&& self.focus_history@ == other.focus_history@
        &&& self.next_window_id == other.next_window_id
    }
}


/// Whether `o` is `Some(w)`.
pub fn is_some_window(o: Option<WindowId>, w: WindowId) -> (r: bool)
    ensures
        r == (o == Some(w)),
{
    match o {
        Some(x) => x == w,
        None => false,
    }
}

/// Whether an optional output name equals an optional requested name.
pub open spec fn output_matches(output: Option<String>, name: Option<Seq<char>>) -> bool {
    match (output, name) {
        (Some(o), Some(n)) => o@ == n,
        (None, None) => true,
        _ => false,
    }
}

/// The view of an optional string slice.
pub open spec fn opt_view(name: Option<&str>) -> Option<Seq<char>> {
    match name {
        Some(n) => Some(n@),
        None => None,
    }
}

fn output_is(output: &Option<String>, name: Option<&str>) -> (r: bool)
    ensures
        r == output_matches(*output, opt_view(name)),
{
    match (output, name) {
        (Some(o), Some(n)) => crate::text::str_equal(o.as_str(), n),
        (None, None) => true,
        _ => false,
    }
}

/// `k` is the least key of `m` satisfying `p`.
pub open spec fn least_key_with(m: Map<u32, Workspace>, p: spec_fn(Workspace) -> bool, k: u32) -> bool {
    &&& m.contains_key(k)
    &&& p(m[k])
    &&& forall|j: u32| m.contains_key(j) && p(m[j]) ==> k <= j
}

/// Workspaces shown on output `name`.
pub open spec fn on_output(name: Seq<char>) -> spec_fn(Workspace) -> bool {
    |ws: Workspace| output_matches(ws.output, Some(name))
}

/// Workspaces shown on output `name` that hold windows.
pub open spec fn occupied_on_output(name: Seq<char>) -> spec_fn(Workspace) -> bool {
    |ws: Workspace| output_matches(ws.output, Some(name)) && ws.windows@.len() > 0
}

pub proof fn lemma_last_satisfying_tail(s: Seq<WindowId>, p: spec_fn(WindowId) -> bool, i: int)
    requires
        0 <= i <= s.len(),
        forall|j: int| i <= j < s.len() ==> !p(#[trigger] s[j]),
    ensures
        last_satisfying(s, p) == last_satisfying(s.take(i), p),
    decreases s.len() - i,
{
    if i < s.len() {
        assert(!p(s.last()));
        lemma_last_satisfying_tail(s.drop_last(), p, i);
        assert(s.drop_last().take(i) =~= s.take(i));
    } else {
        assert(s.take(i) =~= s);
    }
}

/// The most recent window of `s` that `p` accepts.
fn last_accepted_focus(
    s: &Vec<WindowId>,
    state: &State,
    ws_id: u32,
    current: Option<WindowId>,
    same_workspace: bool,
) -> (r: Option<WindowId>)
    ensures
        r == last_satisfying(s@, state.recent_candidate(ws_id, current, same_workspace)),
{
    let ghost p = state.recent_candidate(ws_id, current, same_workspace);
    let mut i: usize = s.len();
    while i > 0
        invariant
            i <= s@.len(),
            p == state.recent_candidate(ws_id, current, same_workspace),
            forall|j: int| i <= j < s@.len() ==> !p(#[trigger] s@[j]),
        decreases i,
    {
        let w = s[i - 1];
        let ok = if is_some_window(current, w) {
            false
        } else {
            match state.windows.get(&w.0) {
                Some(win) => !same_workspace || win.workspace_id == ws_id,
                None => false,
            }
        };
        if ok {
            proof {
                lemma_last_satisfying_tail(s@, p, i as int);
                assert(s@.take(i as int).last() == w);
            }
            return Some(w);
        }
        i = i - 1;
    }
    proof {
        lemma_last_satisfying_tail(s@, p, 0);
    }
    None
}

/// First index of `k` in `v`.
fn keys_position(v: &Vec<u32>, k: u32) -> (r: Option<usize>)
    ensures
        match r {
            Some(i) => i < v@.len() && v@[i as int] == k,
            None => !v@.contains(k),
        },
{
    let mut i: usize = 0;
    while i < v.len()
        invariant
            i <= v.len(),
            forall|j: int| 0 <= j < i ==> v@[j] != k,
        decreases v.len() - i,
    {
        if v[i] == k {
            return Some(i);
        }
        i = i + 1;
    }
    None
}

impl Default for State {
    fn default() -> (s: State)
        ensures
            s.is_initial(),
            s.wf(),
    {
        State::new()
    }
}

} // verus!
