use vstd::prelude::*;

use super::window::WindowId;

verus! {

/// Index of the first occurrence of `id` in `windows`, or `-1` when absent.
pub open spec fn position_in(windows: Seq<WindowId>, id: WindowId) -> int {
    match windows.index_of_first(id) {
        Some(i) => i,
        None => -1,
    }
}

/// The predicate "is not `id`".
pub open spec fn other_than(id: WindowId) -> spec_fn(WindowId) -> bool {
    |w: WindowId| w != id
}

/// `windows` with every occurrence of `id` taken out.
pub open spec fn without(windows: Seq<WindowId>, id: WindowId) -> Seq<WindowId> {
    windows.filter(other_than(id))
}

/// The index `focus_next` moves the focus to (for a non-empty list).
pub open spec fn next_focus_index(windows: Seq<WindowId>, focused: Option<WindowId>) -> int {
    match focused {
        None => 0,
        Some(current) => {
            let p = position_in(windows, current);
            let idx = if p < 0 { 0 } else { p };
            (idx + 1) % (windows.len() as int)
        },
    }
}

/// The index `focus_prev` moves the focus to (for a non-empty list).
pub open spec fn prev_focus_index(windows: Seq<WindowId>, focused: Option<WindowId>) -> int {
    match focused {
        None => 0,
        Some(current) => {
            let p = position_in(windows, current);
            let idx = if p < 0 { 0 } else { p };
            if idx == 0 { windows.len() - 1 } else { idx - 1 }
        },
    }
}

/// The window list after `add_window(id)`.
pub open spec fn list_after_add(windows: Seq<WindowId>, id: WindowId) -> Seq<WindowId> {
    if windows.contains(id) {
        windows
    } else {
        windows.push(id)
    }
}

/// The focused window after `add_window(id)`: an existing focus stays.
pub open spec fn focus_after_add(focused: Option<WindowId>, id: WindowId) -> Option<WindowId> {
    match focused {
        Some(f) => Some(f),
        None => Some(id),
    }
}

/// The focused window after `remove_window(id)` left `remaining`: the last remaining window
/// takes over the focus of a removed focused window.
pub open spec fn focus_after_remove(
    focused: Option<WindowId>,
    id: WindowId,
    remaining: Seq<WindowId>,
) -> Option<WindowId> {
    if focused == Some(id) {
        if remaining.len() == 0 {
            None
        } else {
            Some(remaining.last())
        }
    } else {
        focused
    }
}

pub proof fn lemma_position_in(windows: Seq<WindowId>, id: WindowId)
    ensures
        position_in(windows, id) == -1 <==> !windows.contains(id),
        position_in(windows, id) != -1 ==> {
            &&& 0 <= position_in(windows, id) < windows.len()
            &&& windows[position_in(windows, id)] == id
            &&& forall|j: int| 0 <= j < position_in(windows, id) ==> windows[j] != id
        },
{
    windows.index_of_first_ensures(id);
}

/// In a list without duplicates, an element sits at its first position.
pub proof fn lemma_position_unique(windows: Seq<WindowId>, i: int)
    requires
        windows.no_duplicates(),
        0 <= i < windows.len(),
    ensures
        position_in(windows, windows[i]) == i,
{
    lemma_position_in(windows, windows[i]);
}

pub proof fn lemma_without(windows: Seq<WindowId>, id: WindowId)
    ensures
        !without(windows, id).contains(id),
        forall|w: WindowId| w != id ==> (without(windows, id).contains(w) <==> windows.contains(w)),
        windows.no_duplicates() ==> without(windows, id).no_duplicates(),
        without(windows, id).len() <= windows.len(),
        without(windows, id).len() < windows.len() <==> windows.contains(id),
    decreases windows.len(),
{
    broadcast use Seq::lemma_filter_push, Seq::lemma_filter_contains_rev;
    let pred = other_than(id);
    let f = without(windows, id);
    assert forall|i: int| 0 <= i < f.len() implies f[i] != id by {
        windows.lemma_filter_pred(pred, i);
    }
    assert forall|w: WindowId| w != id && windows.contains(w) implies f.contains(w) by {
        let k = choose|k: int| 0 <= k < windows.len() && windows[k] == w;
        windows.lemma_filter_contains(pred, k);
    }
    if windows.len() == 0 {
        reveal(Seq::filter);
    } else {
        let rest = windows.drop_last();
        let last = windows.last();
        lemma_without(rest, id);
        assert(rest.push(last) =~= windows);
        let fr = without(rest, id);
        assert(f == if pred(last) { fr.push(last) } else { fr });
        assert(windows.contains(id) <==> (rest.contains(id) || last == id)) by {
            if rest.contains(id) {
                let j = choose|j: int| 0 <= j < rest.len() && rest[j] == id;
                assert(windows[j] == id);
            }
            if windows.contains(id) && last != id {
                let j = choose|j: int| 0 <= j < windows.len() && windows[j] == id;
                assert(rest[j] == id);
            }
        }
        if windows.no_duplicates() {
            assert(rest.no_duplicates());
            if pred(last) {
                assert(!rest.contains(last)) by {
                    if rest.contains(last) {
                        let j = choose|j: int| 0 <= j < rest.len() && rest[j] == last;
                        assert(windows[j] == windows[windows.len() - 1]);
                    }
                }
                assert(!fr.contains(last));
                assert forall|a: int, b: int| 0 <= a < f.len() && 0 <= b < f.len() && a != b
                    implies f[a] != f[b] by {
                    let n = fr.len() as int;
                    if a < n && b < n {
                        assert(f[a] == fr[a] && f[b] == fr[b]);
                    } else if a == n {
                        assert(fr.contains(f[b]));
                    } else {
                        assert(fr.contains(f[a]));
                    }
                }
            }
        }
    }
}

/// Represents a virtual desktop workspace containing windows.
#[derive(Debug, Clone, PartialEq, Eq)]
pub struct Workspace {
    pub id: u32,
    pub name: String,
    pub layout: String,
    pub windows: Vec<WindowId>,
    pub focused_window: Option<WindowId>,
    /// Output (monitor) this workspace is shown on, if pinned to one.
    pub output: Option<String>,
}

/// Whether `v` holds `id`.
pub fn contains_window(v: &Vec<WindowId>, id: WindowId) -> (r: bool)
    ensures
        r == v@.contains(id),
{
    let mut i: usize = 0;
    while i < v.len()
        invariant
            i <= v.len(),
            forall|j: int| 0 <= j < i ==> v@[j] != id,
        decreases v.len() - i,
    {
        if v[i] == id {
            return true;
        }
        i = i + 1;
    }
    false
}

/// First index of `id` in `v`.
pub fn find_position(v: &Vec<WindowId>, id: WindowId) -> (r: Option<usize>)
    ensures
        match r {
            Some(i) => i == position_in(v@, id) && i < v@.len() && v@[i as int] == id,
            None => position_in(v@, id) == -1 && !v@.contains(id),
        },
{
    proof {
        lemma_position_in(v@, id);
    }
    let mut i: usize = 0;
    while i < v.len()
        invariant
            i <= v.len(),
            forall|j: int| 0 <= j < i ==> v@[j] != id,
            position_in(v@, id) == -1 <==> !v@.contains(id),
            position_in(v@, id) != -1 ==> {
                &&& 0 <= position_in(v@, id) < v@.len()
                &&& v@[position_in(v@, id)] == id
                &&& forall|j: int| 0 <= j < position_in(v@, id) ==> v@[j] != id
            },
        decreases v.len() - i,
    {
        if v[i] == id {
            return Some(i);
        }
        i = i + 1;
    }
    None
}

/// `v` without any occurrence of `id`.
pub fn vec_without(v: &Vec<WindowId>, id: WindowId) -> (r: Vec<WindowId>)
    ensures
        r@ == without(v@, id),
{
    broadcast use Seq::lemma_filter_push;
    let mut r: Vec<WindowId> = Vec::new();
    let mut i: usize = 0;
    proof {
        reveal(Seq::filter);
        assert(v@.take(0) =~= Seq::<WindowId>::empty());
    }
    while i < v.len()
        invariant
            i <= v.len(),
            r@ == without(v@.take(i as int), id),
        decreases v.len() - i,
    {
        let w = v[i];
        assert(v@.take(i as int).push(w) =~= v@.take(i + 1));
        proof {
            v@.take(i as int).lemma_filter_push(w, other_than(id));
        }
        if w != id {
            r.push(w);
        }
        i = i + 1;
    }
    assert(v@.take(v.len() as int) =~= v@);
    r
}

impl Workspace {
    /// Same id, name, layout and output.
    pub open spec fn same_identity(self, other: Workspace) -> bool {
        &&& self.id == other.id
        &&& self.name == other.name
        &&& self.layout == other.layout
        &&& self.output == other.output
    }

    /// No window is listed twice and a focused window is one of the listed ones.
    pub open spec fn wf(&self) -> bool {
        &&& self.windows@.no_duplicates()
        &&& (self.focused_window matches Some(f) ==> self.windows@.contains(f))
    }

    pub fn new(id: u32, name: String, layout: String) -> (ws: Workspace)
        ensures
            ws.id == id,
            ws.name@ == name@,
            ws.layout@ == layout@,
            ws.windows@ == Seq::<WindowId>::empty(),
            ws.focused_window is None,
            ws.output is None,
            ws.wf(),
    {
        Workspace { id, name, layout, windows: Vec::new(), focused_window: None, output: None }
    }

    pub fn add_window(&mut self, id: WindowId)
        ensures
            final(self).windows@ == list_after_add(old(self).windows@, id),
            final(self).focused_window == focus_after_add(old(self).focused_window, id),
            final(self).id == old(self).id,
            final(self).name == old(self).name,
            final(self).layout == old(self).layout,
            final(self).output == old(self).output,
            old(self).wf() ==> final(self).wf(),
    {
        if !contains_window(&self.windows, id) {
            self.windows.push(id);
        }
        if self.focused_window.is_none() {
            self.focused_window = Some(id);
        }
        proof {
            if old(self).wf() {
                assert(self.windows@.contains(id)) by {
                    if !old(self).windows@.contains(id) {
                        assert(self.windows@[self.windows@.len() - 1] == id);
                    }
                }
                assert forall|w: WindowId| old(self).windows@.contains(w) implies
                    self.windows@.contains(w) by {
                    let j = choose|j: int| 0 <= j < old(self).windows@.len()
                        && old(self).windows@[j] == w;
                    assert(self.windows@[j] == w);
                }
            }
        }
    }

    pub fn remove_window(&mut self, id: WindowId) -> (removed: bool)
        ensures
            removed == old(self).windows@.contains(id),
            final(self).windows@ == without(old(self).windows@, id),
            final(self).focused_window == focus_after_remove(
                old(self).focused_window,
                id,
                final(self).windows@,
            ),
            final(self).id == old(self).id,
            final(self).name == old(self).name,
            final(self).layout == old(self).layout,
            final(self).output == old(self).output,
            old(self).wf() ==> final(self).wf(),
    {
        proof {
            lemma_without(self.windows@, id);
        }
        let prev_len = self.windows.len();
        self.windows = vec_without(&self.windows, id);
        let is_focused = match self.focused_window {
            Some(f) => f == id,
            None => false,
        };
        if is_focused {
            self.focused_window = if self.windows.len() == 0 {
                None
            } else {
                Some(self.windows[self.windows.len() - 1])
            };
        }
        proof {
            if old(self).wf() {
                if let Some(f) = self.focused_window {
                    if !is_focused {
                        assert(old(self).windows@.contains(f));
                    } else {
                        assert(self.windows@[self.windows@.len() - 1] == f);
                    }
                }
            }
        }
        self.windows.len() < prev_len
    }

    pub fn focus_next(&mut self) -> (r: Option<WindowId>)
        ensures
            old(self).windows@.len() == 0 ==> r is None,
            old(self).windows@.len() > 0 ==> r == Some(
                old(self).windows@[next_focus_index(
                    old(self).windows@,
                    old(self).focused_window,
                )],
            ),
            final(self).focused_window == r,
            final(self).windows == old(self).windows,
            final(self).id == old(self).id,
            final(self).name == old(self).name,
            final(self).layout == old(self).layout,
            final(self).output == old(self).output,
            old(self).wf() ==> final(self).wf(),
    {
        if self.windows.len() == 0 {
            self.focused_window = None;
            return None;
        }
        let next_idx = match self.focused_window {
            Some(current) => {
                let idx = match find_position(&self.windows, current) {
                    Some(i) => i,
                    None => 0,
                };
                (idx + 1) % self.windows.len()
            },
            None => 0,
        };
        let new_focus = self.windows[next_idx];
        self.focused_window = Some(new_focus);
        Some(new_focus)
    }

    pub fn focus_prev(&mut self) -> (r: Option<WindowId>)
        ensures
            old(self).windows@.len() == 0 ==> r is None,
            old(self).windows@.len() > 0 ==> r == Some(
                old(self).windows@[prev_focus_index(
                    old(self).windows@,
                    old(self).focused_window,
                )],
            ),
            final(self).focused_window == r,
            final(self).windows == old(self).windows,
            final(self).id == old(self).id,
            final(self).name == old(self).name,
            final(self).layout == old(self).layout,
            final(self).output == old(self).output,
            old(self).wf() ==> final(self).wf(),
    {
        if self.windows.len() == 0 {
            self.focused_window = None;
            return None;
        }
        let prev_idx = match self.focused_window {
            Some(current) => {
                let idx = match find_position(&self.windows, current) {
                    Some(i) => i,
                    None => 0,
                };
                if idx == 0 {
                    self.windows.len() - 1
                } else {
                    idx - 1
                }
            },
            None => 0,
        };
        let new_focus = self.windows[prev_idx];
        self.focused_window = Some(new_focus);
        Some(new_focus)
    }

    pub fn swap_focused_with_master(&mut self) -> (swapped: bool)
        ensures
            swapped == (old(self).windows@.len() >= 2 && match old(self).focused_window {
                Some(f) => position_in(old(self).windows@, f) > 0,
                None => false,
            }),
            swapped ==> {
                let p = position_in(old(self).windows@, old(self).focused_window->0);
                final(self).windows@ == old(self).windows@.update(0, old(self).windows@[p]).update(
                    p,
                    old(self).windows@[0],
                )
            },
            !swapped ==> final(self).windows@ == old(self).windows@,
            final(self).focused_window == old(self).focused_window,
            final(self).id == old(self).id,
            final(self).name == old(self).name,
            final(self).layout == old(self).layout,
            final(self).output == old(self).output,
            old(self).wf() ==> final(self).wf(),
    {
        if self.windows.len() < 2 {
            return false;
        }
        if let Some(focused) = self.focused_window {
            if let Some(idx) = find_position(&self.windows, focused) {
                if idx != 0 {
                    let master = self.windows[0];
                    let other = self.windows[idx];
                    self.windows.set(0, other);
                    self.windows.set(idx, master);
                    proof {
                        if old(self).wf() {
                            let o = old(self).windows@;
                            let n = self.windows@;
                            assert forall|a: int, b: int|
                                0 <= a < n.len() && 0 <= b < n.len() && a != b
                                implies n[a] != n[b] by {
                                let oa = if a == 0 { idx as int } else if a == idx { 0 } else { a };
                                let ob = if b == 0 { idx as int } else if b == idx { 0 } else { b };
                                assert(n[a] == o[oa]);
                                assert(n[b] == o[ob]);
                            }
                            assert(n[0] == focused);
                        }
                    }
                    return true;
                }
            }
        }
        false
    }
}

} // verus!
