use vstd::prelude::*;

use crate::state::window::Window;
use crate::state::workspace::{
    lemma_position_in, lemma_position_unique, next_focus_index, prev_focus_index, Workspace,
};
use crate::state::{cyclic_next, cyclic_prev, State};
use crate::state::window::WindowId;
use crate::dispatch::outcome::dispatch_outcome;
use crate::dispatch::{dispatch_error_text, Command, DispatchError, DispatchResult, Dispatcher};
use crate::input::keybindings::{keysym_of, lookup_binding, KeyAction, KeyPattern};
use crate::ipc::protocol::{answers, IpcResponse};
use crate::layout::{at_least_one, gap_of, signed, trunc_div, LayoutConfig, LayoutKind};
use crate::layout::master::{clamped_ratio, master_fits, master_rect, master_width, stack_cell_height, stack_y};
use crate::state::window::Rect;
use crate::state::rules::{apply_rules, pattern_matches, WindowRule, WindowRuleMatcher};
use crate::sync::transaction::{after_commit, TransactionView};
use crate::dispatch::Direction;
use crate::state::workspace::{other_than, without};
use crate::config::{hex_color, setting_kind, SettingKind};
use crate::input::pointer::{hits, topmost_at};
use crate::dispatch::outcome::{focus_changes, focus_step, swaps_master};
use crate::backend::drm::{connector_choice, crtc_choice, first_free, plan_from, ConnectorProbe};
use crate::scene::{configure_update_of, ConfigureTarget, ConfigureUpdate, PendingConfigure};
use crate::cli::{msg_outcome, texts, MsgError};
use crate::layout::grid::{ceil_sqrt_from, grid_cell_fits, grid_cols, grid_fits, grid_rect, grid_rows};
use crate::text::parse_unsigned;

verus! {

/// Toggling fullscreen twice gives back the window, for a window that is not fullscreen and
/// has no saved geometry.
pub proof fn law_fullscreen_toggle_round_trip(w: Window)
    requires
        !w.fullscreen,
        w.saved_geometry is None,
    ensures
        w.toggled_fullscreen().toggled_fullscreen() == w,
{
}

/// Maximizing and restoring a floating window that has no saved geometry gives back the
/// window.
pub proof fn law_maximize_round_trip_floating(w: Window)
    requires
        w.floating,
        !w.maximized,
        w.saved_geometry is None,
    ensures
        w.toggled_maximized().toggled_maximized() == w,
{
}

/// Focusing the next window and then the previous one gives the focus back to the window
/// that had it, in a well-formed workspace.
pub proof fn law_focus_next_then_prev(ws: Workspace, f: WindowId)
    requires
        ws.wf(),
        ws.focused_window == Some(f),
    ensures
        ({
            let l = ws.windows@;
            let n = l[next_focus_index(l, Some(f))];
            l[prev_focus_index(l, Some(n))] == f
        }),
{
    let l = ws.windows@;
    lemma_position_in(l, f);
    let p = crate::state::workspace::position_in(l, f);
    let len = l.len() as int;
    if p + 1 < len {
        vstd::arithmetic::div_mod::lemma_small_mod((p + 1) as nat, len as nat);
    } else {
        vstd::arithmetic::div_mod::lemma_mod_self_0(len);
    }
    let k = next_focus_index(l, Some(f));
    assert(0 <= k < l.len());
    lemma_position_unique(l, k);
}

/// Focusing the previous window and then the next one gives the focus back to the window
/// that had it, in a well-formed workspace.
pub proof fn law_focus_prev_then_next(ws: Workspace, f: WindowId)
    requires
        ws.wf(),
        ws.focused_window == Some(f),
    ensures
        ({
            let l = ws.windows@;
            let n = l[prev_focus_index(l, Some(f))];
            l[next_focus_index(l, Some(n))] == f
        }),
{
    let l = ws.windows@;
    lemma_position_in(l, f);
    let p = crate::state::workspace::position_in(l, f);
    let len = l.len() as int;
    let k = prev_focus_index(l, Some(f));
    assert(0 <= k < l.len());
    lemma_position_unique(l, k);
    if p == 0 {
        vstd::arithmetic::div_mod::lemma_mod_self_0(len);
        assert(k + 1 == len);
    } else {
        vstd::arithmetic::div_mod::lemma_small_mod((k + 1) as nat, len as nat);
    }
}

/// Cycling to the next workspace and then back to the previous one returns to the start,
/// for a start that takes part in the cycle.
pub proof fn law_cycle_next_then_prev(s: Set<u32>, a: u32, n: u32, p: u32)
    requires
        s.contains(a),
        cyclic_next(s, a, n),
        cyclic_prev(s, n, p),
    ensures
        p == a,
{
    if exists|k: u32| s.contains(k) && a < k {
        assert(a < n);
        assert(s.contains(a) && a < n);
        assert(p >= a);
        if p > a {
            assert(s.contains(p) && a < p);
            assert(n <= p);
        }
    } else {
        assert(forall|k: u32| s.contains(k) ==> n <= k);
        if exists|k: u32| s.contains(k) && k < n {
            let k = choose|k: u32| s.contains(k) && k < n;
            assert(n <= k);
        }
        assert(forall|k: u32| s.contains(k) ==> k <= p);
        assert(a <= p);
        if a < p {
            assert(s.contains(p) && a < p);
        }
    }
}

/// Cycling to the previous workspace and then to the next one returns to the start, for a
/// start that takes part in the cycle.
pub proof fn law_cycle_prev_then_next(s: Set<u32>, a: u32, p: u32, n: u32)
    requires
        s.contains(a),
        cyclic_prev(s, a, p),
        cyclic_next(s, p, n),
    ensures
        n == a,
{
    if exists|k: u32| s.contains(k) && k < a {
        assert(p < a);
        assert(s.contains(a) && p < a);
        assert(n <= a);
        if n < a {
            assert(s.contains(n) && n < a);
            assert(n <= p);
        }
    } else {
        assert(forall|k: u32| s.contains(k) ==> k <= p);
        if exists|k: u32| s.contains(k) && p < k {
            let k = choose|k: u32| s.contains(k) && p < k;
            assert(k <= p);
        }
        assert(forall|k: u32| s.contains(k) ==> n <= k);
        assert(n <= a);
        if n < a {
            assert(s.contains(n) && n < a);
        }
    }
}

/// Toggling floating twice gives back the windows as they were, and changes nothing else.
pub proof fn law_floating_toggle_round_trip(
    s0: State,
    s1: State,
    s2: State,
    id: WindowId,
    r1: Result<bool, crate::state::StateError>,
    r2: Result<bool, crate::state::StateError>,
)
    requires
        State::toggle_floating_post(s0, s1, id, r1),
        State::toggle_floating_post(s1, s2, id, r2),
    ensures
        s2.windows@ == s0.windows@,
        s2.workspaces == s0.workspaces,
        s2.active_workspace_id == s0.active_workspace_id,
        s2.focus_history == s0.focus_history,
        r1 is Ok <==> r2 is Ok,
{
    if s0.windows@.contains_key(id.0) {
        let w = s0.windows@[id.0];
        assert(s1.windows@[id.0] == Window { floating: !w.floating, ..w });
        assert(s2.windows@ =~= s0.windows@);
    }
}

/// Toggling pinning twice gives back the windows as they were, and changes nothing else.
pub proof fn law_pin_toggle_round_trip(
    s0: State,
    s1: State,
    s2: State,
    id: WindowId,
    r1: Result<bool, crate::state::StateError>,
    r2: Result<bool, crate::state::StateError>,
)
    requires
        State::toggle_pinned_post(s0, s1, id, r1),
        State::toggle_pinned_post(s1, s2, id, r2),
    ensures
        s2.windows@ == s0.windows@,
        s2.workspaces == s0.workspaces,
        s2.active_workspace_id == s0.active_workspace_id,
        s2.focus_history == s0.focus_history,
        r1 is Ok <==> r2 is Ok,
{
    if s0.windows@.contains_key(id.0) {
        let w = s0.windows@[id.0];
        assert(s1.windows@[id.0] == Window { pinned: !w.pinned, ..w });
        assert(s2.windows@ =~= s0.windows@);
    }
}

/// A refused command changes nothing: the state, the dispatcher's queues and its layout
/// settings stay as they were.
pub proof fn law_refused_command_changes_nothing(
    pre_d: Dispatcher,
    post_d: Dispatcher,
    pre: State,
    post: State,
    cmd: Command,
    r: Result<DispatchResult, DispatchError>,
)
    requires
        dispatch_outcome(pre_d, post_d, pre, post, cmd, r),
        r is Err,
    ensures
        post == pre,
        post_d.events@ == pre_d.events@,
        post_d.pending_closes@ == pre_d.pending_closes@,
        post_d.pending_spawns@ == pre_d.pending_spawns@,
        post_d.layout_registry == pre_d.layout_registry,
        post_d.layout_config == pre_d.layout_config,
{
    assert(pre_d.events@ + Seq::<crate::dispatch::Event>::empty() =~= pre_d.events@);
    assert(pre_d.pending_closes@ + Seq::<WindowId>::empty() =~= pre_d.pending_closes@);
}

/// A request that is answered with `ok == false` was refused: its answer carries the
/// refusal's text, and nothing changed.
pub proof fn law_refused_request_answered(
    resp: IpcResponse,
    id: Option<u64>,
    r: Result<DispatchResult, DispatchError>,
    pre_d: Dispatcher,
    post_d: Dispatcher,
    pre: State,
    post: State,
    cmd: Command,
)
    requires
        answers(resp, id, r),
        dispatch_outcome(pre_d, post_d, pre, post, cmd, r),
        !resp.ok,
    ensures
        r is Err,
        resp.id == id,
        resp.result is None,
        resp.error matches Some(m) && m@ == dispatch_error_text(r->Err_0),
        post == pre,
        post_d.events@ == pre_d.events@,
        post_d.pending_closes@ == pre_d.pending_closes@,
        post_d.pending_spawns@ == pre_d.pending_spawns@,
        post_d.layout_config == pre_d.layout_config,
{
    law_refused_command_changes_nothing(pre_d, post_d, pre, post, cmd, r);
}

/// After `pattern` is bound to `action`, a key press with exactly that pattern finds
/// `action`.
pub proof fn law_bound_key_found(m: Map<KeyPattern, KeyAction>, pattern: KeyPattern, action: KeyAction)
    ensures
        lookup_binding(m.insert(pattern, action), pattern.modifiers, pattern.keysym) == Some(action),
{
}

/// A letter bound in lowercase is found when it is pressed in uppercase (with the same
/// modifiers), unless the uppercase letter has a binding of its own.
pub proof fn law_uppercase_press_finds_lowercase_binding(
    m: Map<KeyPattern, KeyAction>,
    modifiers: crate::input::keybindings::Modifiers,
    upper: u32,
)
    requires
        0x41 <= upper <= 0x5a,
        !m.contains_key(KeyPattern { modifiers, keysym: upper }),
        m.contains_key(KeyPattern { modifiers, keysym: (upper + 0x20) as u32 }),
    ensures
        lookup_binding(m, modifiers, upper) == Some(
            m[KeyPattern { modifiers, keysym: (upper + 0x20) as u32 }],
        ),
{
}

/// A layout registered under a name is what the registry gives for that name.
pub proof fn law_registered_layout_found(m: Map<Seq<char>, LayoutKind>, name: Seq<char>, kind: LayoutKind)
    ensures
        m.insert(name, kind).contains_key(name),
        m.insert(name, kind)[name] == kind,
{
}

/// Rules that match none of the windows they see leave the window unchanged.
pub proof fn law_unmatched_rules_keep_window(rules: Seq<WindowRule>, w: Window)
    requires
        forall|i: int| 0 <= i < rules.len() ==> !(#[trigger] rules[i]).match_criteria.accepts(w),
    ensures
        apply_rules(rules, w) == w,
    decreases rules.len(),
{
    if rules.len() > 0 {
        law_unmatched_rules_keep_window(rules.drop_last(), w);
        assert(rules.drop_last().len() < rules.len());
        assert(!rules[rules.len() - 1].match_criteria.accepts(w));
    }
}

/// A commit moves a window from pending to committed at most: no window becomes pending, and
/// the transaction keeps its id.
pub proof fn law_commit_only_shrinks_pending(t: TransactionView, w: u64)
    ensures
        after_commit(t, w).pending.subset_of(t.pending),
        t.committed.subset_of(after_commit(t, w).committed),
        after_commit(t, w).id == t.id,
        !after_commit(t, w).pending.contains(w),
{
}

/// The transaction after each window of `ws` committed, in order.
pub open spec fn after_commits(t: TransactionView, ws: Seq<u64>) -> TransactionView
    decreases ws.len(),
{
    if ws.len() == 0 {
        t
    } else {
        after_commit(after_commits(t, ws.drop_last()), ws.last())
    }
}

/// Once every window a transaction waits for has committed, the transaction is complete.
pub proof fn law_all_commits_complete(t: TransactionView, ws: Seq<u64>)
    requires
        forall|w: u64| t.pending.contains(w) ==> ws.contains(w),
    ensures
        after_commits(t, ws).pending.is_empty(),
{
    lemma_after_commits_pending(t, ws);
    assert(after_commits(t, ws).pending =~= Set::<u64>::empty());
}

proof fn lemma_after_commits_pending(t: TransactionView, ws: Seq<u64>)
    ensures
        forall|w: u64| #[trigger] after_commits(t, ws).pending.contains(w) <==> (t.pending.contains(w) && !ws.contains(w)),
    decreases ws.len(),
{
    if ws.len() > 0 {
        lemma_after_commits_pending(t, ws.drop_last());
        let prev = after_commits(t, ws.drop_last());
        let x = ws.last();
        assert(after_commits(t, ws) == after_commit(prev, x));
        assert forall|w: u64| #[trigger] after_commits(t, ws).pending.contains(w) <==> (t.pending.contains(w) && !ws.contains(w)) by {
            assert(after_commits(t, ws).pending.contains(w) <==> (prev.pending.contains(w) && w != x));
            assert(prev.pending.contains(w) <==> (t.pending.contains(w) && !ws.drop_last().contains(w)));
            if ws.drop_last().contains(w) {
                let i = choose|i: int| 0 <= i < ws.drop_last().len() && ws.drop_last()[i] == w;
                assert(ws[i] == w);
            }
            if ws.contains(w) && w != ws.last() {
                let i = choose|i: int| 0 <= i < ws.len() && ws[i] == w;
                assert(i < ws.len() - 1);
                assert(ws.drop_last()[i] == w);
            }
            if w == ws.last() {
                assert(ws[ws.len() - 1] == w);
            }
        }
    }
}

/// Focusing the next window and then the previous one through the dispatcher gives the
/// focus back to the window that had it.
pub proof fn law_dispatch_focus_next_then_prev(
    d0: Dispatcher,
    d1: Dispatcher,
    d2: Dispatcher,
    s0: State,
    s1: State,
    s2: State,
    r1: Result<DispatchResult, DispatchError>,
    r2: Result<DispatchResult, DispatchError>,
    f: WindowId,
)
    requires
        s0.wf(),
        dispatch_outcome(d0, d1, s0, s1, Command::WindowFocusDir { direction: Direction::Next }, r1),
        dispatch_outcome(d1, d2, s1, s2, Command::WindowFocusDir { direction: Direction::Prev }, r2),
        s0.workspaces@[s0.active_workspace_id].focused_window == Some(f),
    ensures
        s2.active_workspace_id == s0.active_workspace_id,
        s2.workspaces@[s0.active_workspace_id].focused_window == Some(f),
        s2.windows == s0.windows,
{
    let a = s0.active_workspace_id;
    let ws = s0.workspaces@[a];
    assert(ws.wf());
    law_focus_next_then_prev(ws, f);
    assert(s1.workspaces@[a].windows == ws.windows);
    assert(ws.windows@.len() > 0) by {
        assert(ws.windows@.contains(f));
    }
}

/// A window closed through the dispatcher is no longer managed, is listed on no workspace,
/// and is queued so that its client is asked to close.
pub proof fn law_closed_window_is_gone(
    d0: Dispatcher,
    d1: Dispatcher,
    s0: State,
    s1: State,
    w: WindowId,
    r: Result<DispatchResult, DispatchError>,
)
    requires
        s0.wf(),
        dispatch_outcome(d0, d1, s0, s1, Command::WindowClose { id: Some(w) }, r),
        r is Ok,
    ensures
        !s1.windows@.contains_key(w.0),
        forall|k: u32| #[trigger] s1.workspaces@.contains_key(k) ==> !s1.workspaces@[k].windows@.contains(w),
        d1.pending_closes@ == d0.pending_closes@.push(w),
{
    assert(s0.windows@.contains_key(w.0));
    let wk = s0.windows@[w.0].workspace_id;
    assert forall|k: u32| #[trigger] s1.workspaces@.contains_key(k) implies !s1.workspaces@[k].windows@.contains(w) by {
        if k == wk {
            crate::state::workspace::lemma_without(s0.workspaces@[wk].windows@, w);
        } else {
            assert(s0.workspaces@.contains_key(k));
            if s0.workspaces@[k].windows@.contains(w) {
                let i = choose|i: int| 0 <= i < s0.workspaces@[k].windows@.len() && s0.workspaces@[k].windows@[i] == w;
                assert(s0.workspaces@[k].windows@[i] == w);
            }
        }
    }
}

/// Adding a window to a list that does not hold it and taking it out again gives back the
/// list.
pub proof fn law_add_then_remove_restores_list(l: Seq<WindowId>, id: WindowId)
    requires
        !l.contains(id),
    ensures
        without(crate::state::workspace::list_after_add(l, id), id) == l,
    decreases l.len(),
{
    broadcast use Seq::lemma_filter_push;

    assert(l.push(id).filter(other_than(id)) == l.filter(other_than(id)));
    lemma_filter_keeps_all(l, id);
}

proof fn lemma_filter_keeps_all(l: Seq<WindowId>, id: WindowId)
    requires
        !l.contains(id),
    ensures
        l.filter(other_than(id)) == l,
    decreases l.len(),
{
    broadcast use Seq::lemma_filter_push;

    if l.len() > 0 {
        let rest = l.drop_last();
        assert(!rest.contains(id)) by {
            if rest.contains(id) {
                let i = choose|i: int| 0 <= i < rest.len() && rest[i] == id;
                assert(l[i] == id);
            }
        }
        lemma_filter_keeps_all(rest, id);
        assert(rest.push(l.last()) =~= l);
        assert(l.last() != id) by {
            assert(l[l.len() - 1] == l.last());
        }
        assert(other_than(id)(l.last()));
    } else {
        assert(l.filter(other_than(id)) =~= l);
    }
}

/// Creating a window and removing it again leaves the managed windows as they were, and the
/// window is listed nowhere.
pub proof fn law_create_then_remove_restores_windows(
    s0: State,
    s1: State,
    s2: State,
    ws: Option<u32>,
    id: WindowId,
    r2: Result<(), crate::state::StateError>,
)
    requires
        s0.wf(),
        State::create_post(s0, s1, ws, Ok(id)),
        State::remove_post(s1, s2, id, r2),
    ensures
        r2 is Ok,
        s2.windows@ == s0.windows@,
        s2.workspaces@.dom() == s0.workspaces@.dom(),
        forall|k: u32| #[trigger] s2.workspaces@.contains_key(k) ==> s2.workspaces@[k].windows@ == s0.workspaces@[k].windows@,
{
    let target = match ws {
        Some(w) => w,
        None => s0.active_workspace_id,
    };
    assert(s0.workspaces@.contains_key(target));
    assert(!s0.windows@.contains_key(id.0));
    assert(s1.windows@[id.0].workspace_id == target);
    let ol = s0.workspaces@[target].windows@;
    assert(!ol.contains(id)) by {
        if ol.contains(id) {
            let i = choose|i: int| 0 <= i < ol.len() && ol[i] == id;
            assert(s0.workspaces@[target].windows@[i] == id);
        }
    }
    law_add_then_remove_restores_list(ol, id);
    assert(s2.windows@ =~= s0.windows@);
    assert(s2.workspaces@.dom() =~= s0.workspaces@.dom());
}

/// The short color form `#rgb` means the same as `#rrggbb` with each digit doubled.
pub proof fn law_short_hex_color(r: char, g: char, b: char)
    requires
        crate::config::hex_digit(r) is Some,
        crate::config::hex_digit(g) is Some,
        crate::config::hex_digit(b) is Some,
    ensures
        hex_color(seq!['#', r, g, b]) == hex_color(seq!['#', r, r, g, g, b, b]),
        hex_color(seq!['#', r, g, b]) is Some,
{
    let s = seq!['#', r, g, b];
    let l = seq!['#', r, r, g, g, b, b];
    crate::text::lemma_trimmed_unchanged(s);
    crate::text::lemma_trimmed_unchanged(l);
    assert(s.drop_first() =~= seq![r, g, b]);
    assert(l.drop_first() =~= seq![r, r, g, g, b, b]);
}

/// The window the pointer targets is on the list, managed, holds the point, and no window
/// stacked above it holds the point.
pub proof fn law_pointer_target_is_topmost_hit(ids: Seq<WindowId>, m: Map<u64, Window>, px: int, py: int)
    ensures
        match topmost_at(ids, m, px, py) {
            Some(w) => exists|i: int|
                0 <= i < ids.len() && ids[i] == w && m.contains_key(w.0) && hits(m[w.0].geometry, px, py)
                    && forall|j: int| i < j < ids.len() ==> !(m.contains_key(#[trigger] ids[j].0) && hits(m[ids[j].0].geometry, px, py)),
            None => forall|j: int| 0 <= j < ids.len() ==> !(m.contains_key(#[trigger] ids[j].0) && hits(m[ids[j].0].geometry, px, py)),
        },
    decreases ids.len(),
{
    if ids.len() > 0 {
        let rest = ids.drop_last();
        law_pointer_target_is_topmost_hit(rest, m, px, py);
        let last = ids.last();
        if m.contains_key(last.0) && hits(m[last.0].geometry, px, py) {
            assert(ids[ids.len() - 1] == last);
        } else {
            match topmost_at(rest, m, px, py) {
                Some(w) => {
                    let i = choose|i: int|
                        0 <= i < rest.len() && rest[i] == w && m.contains_key(w.0) && hits(m[w.0].geometry, px, py)
                            && forall|j: int| i < j < rest.len() ==> !(m.contains_key(#[trigger] rest[j].0) && hits(m[rest[j].0].geometry, px, py));
                    assert(ids[i] == w);
                    assert forall|j: int| i < j < ids.len() implies !(m.contains_key(#[trigger] ids[j].0) && hits(m[ids[j].0].geometry, px, py)) by {
                        if j < ids.len() - 1 {
                            assert(ids[j] == rest[j]);
                        }
                    }
                },
                None => {
                    assert forall|j: int| 0 <= j < ids.len() implies !(m.contains_key(#[trigger] ids[j].0) && hits(m[ids[j].0].geometry, px, py)) by {
                        if j < ids.len() - 1 {
                            assert(ids[j] == rest[j]);
                        }
                    }
                },
            }
        }
    }
}

proof fn lemma_first_free_fresh(crtcs: Seq<u32>, allowed: Option<Seq<u32>>, used: Seq<u32>)
    ensures
        first_free(crtcs, allowed, used) matches Some(c) ==> crtcs.contains(c) && !used.contains(c),
    decreases crtcs.len(),
{
    if crtcs.len() > 0 {
        lemma_first_free_fresh(crtcs.drop_first(), allowed, used);
        if let Some(c) = first_free(crtcs.drop_first(), allowed, used) {
            let i = choose|i: int| 0 <= i < crtcs.drop_first().len() && crtcs.drop_first()[i] == c;
            assert(crtcs[i + 1] == c);
        }
        assert(crtcs[0] == crtcs[0]);
    }
}

proof fn lemma_crtc_choice_fresh(crtcs: Seq<u32>, encoders: Seq<Seq<u32>>, used: Seq<u32>)
    ensures
        crtc_choice(crtcs, encoders, used) matches Some(c) ==> crtcs.contains(c) && !used.contains(c),
    decreases encoders.len(),
{
    lemma_first_free_fresh(crtcs, None, used);
    if encoders.len() > 0 {
        lemma_first_free_fresh(crtcs, Some(encoders[0]), used);
        lemma_crtc_choice_fresh(crtcs, encoders.drop_first(), used);
    }
}

/// The CRTC of the choice at position `k` of a plan, if the connector there got one.
pub open spec fn planned_crtc(plan: Seq<Option<(usize, u32)>>, k: int) -> Option<u32> {
    match plan[k] {
        Some((_, c)) => Some(c),
        None => None,
    }
}

proof fn lemma_plan_fresh(crtcs: Seq<u32>, probes: Seq<ConnectorProbe>, used: Seq<u32>)
    ensures
        plan_from(crtcs, probes, used).len() == probes.len(),
        forall|k: int|
            0 <= k < probes.len() && (#[trigger] planned_crtc(plan_from(crtcs, probes, used), k)) is Some ==> {
                let c = planned_crtc(plan_from(crtcs, probes, used), k)->0;
                crtcs.contains(c) && !used.contains(c)
            },
        forall|i: int, j: int|
            0 <= i < j < probes.len() && (#[trigger] planned_crtc(plan_from(crtcs, probes, used), i)) is Some
                && (#[trigger] planned_crtc(plan_from(crtcs, probes, used), j)) is Some ==> planned_crtc(
                plan_from(crtcs, probes, used),
                i,
            ) != planned_crtc(plan_from(crtcs, probes, used), j),
    decreases probes.len(),
{
    if probes.len() > 0 {
        let p = probes[0];
        let choice = connector_choice(crtcs, p, used);
        let next_used = match choice {
            Some((_, c)) => used.push(c),
            None => used,
        };
        let rest = plan_from(crtcs, probes.drop_first(), next_used);
        let plan = plan_from(crtcs, probes, used);
        assert(plan == seq![choice] + rest);
        lemma_plan_fresh(crtcs, probes.drop_first(), next_used);
        if p.connected {
            lemma_crtc_choice_fresh(crtcs, p.encoder_crtcs@.map_values(|e: Vec<u32>| e@), used);
        }
        assert forall|k: int|
            0 <= k < probes.len() && (#[trigger] planned_crtc(plan, k)) is Some implies {
                let c = planned_crtc(plan, k)->0;
                crtcs.contains(c) && !used.contains(c)
            } by {
            if k > 0 {
                assert(plan[k] == rest[k - 1]);
                assert(planned_crtc(plan, k) == planned_crtc(rest, k - 1));
                let c = planned_crtc(rest, k - 1)->0;
                assert(!next_used.contains(c));
                if used.contains(c) {
                    let t = choose|t: int| 0 <= t < used.len() && used[t] == c;
                    assert(next_used[t] == c);
                }
            }
        }
        assert forall|i: int, j: int|
            0 <= i < j < probes.len() && (#[trigger] planned_crtc(plan, i)) is Some
                && (#[trigger] planned_crtc(plan, j)) is Some implies planned_crtc(plan, i) != planned_crtc(plan, j) by {
            assert(plan[j] == rest[j - 1]);
            assert(planned_crtc(plan, j) == planned_crtc(rest, j - 1));
            if i == 0 {
                let c0 = planned_crtc(plan, 0)->0;
                assert(next_used == used.push(c0));
                assert(next_used[used.len() as int] == c0);
                assert(next_used.contains(c0));
            } else {
                assert(plan[i] == rest[i - 1]);
                assert(planned_crtc(plan, i) == planned_crtc(rest, i - 1));
            }
        }
    }
}

/// Each CRTC of a card drives at most one output: the CRTCs chosen for different
/// connectors differ, and each is one of the card's.
pub proof fn law_outputs_get_distinct_crtcs(crtcs: Seq<u32>, probes: Seq<ConnectorProbe>)
    ensures
        forall|k: int|
            0 <= k < probes.len() && (#[trigger] planned_crtc(plan_from(crtcs, probes, Seq::empty()), k)) is Some
                ==> crtcs.contains(planned_crtc(plan_from(crtcs, probes, Seq::empty()), k)->0),
        forall|i: int, j: int|
            0 <= i < j < probes.len() && (#[trigger] planned_crtc(plan_from(crtcs, probes, Seq::empty()), i)) is Some
                && (#[trigger] planned_crtc(plan_from(crtcs, probes, Seq::empty()), j)) is Some ==> planned_crtc(
                plan_from(crtcs, probes, Seq::empty()),
                i,
            ) != planned_crtc(plan_from(crtcs, probes, Seq::empty()), j),
{
    lemma_plan_fresh(crtcs, probes, Seq::empty());
}


/// Whether two states hold the same workspaces, windows, focus and counters.
pub open spec fn same_state(a: State, b: State) -> bool {
    &&& a.workspaces@ == b.workspaces@
    &&& a.windows@ == b.windows@
    &&& a.active_workspace_id == b.active_workspace_id
    &&& a.previous_workspace_id == b.previous_workspace_id
    &&& a.special_workspace_active == b.special_workspace_active
    &&& a.focus_history@ == b.focus_history@
    &&& a.next_id() == b.next_id()
}

/// A command that succeeds and changes neither the state nor the layout settings queues no
/// event; quitting, which is announced, aside.
pub proof fn law_unchanging_command_emits_nothing(
    pre_d: Dispatcher,
    post_d: Dispatcher,
    pre: State,
    post: State,
    cmd: Command,
    r: Result<DispatchResult, DispatchError>,
)
    requires
        pre.wf(),
        dispatch_outcome(pre_d, post_d, pre, post, cmd, r),
        r is Ok,
        !(cmd is CompositorQuit),
        same_state(pre, post),
        post_d.layout_config == pre_d.layout_config,
    ensures
        post_d.events@ == pre_d.events@,
{
    let a = pre.active_workspace_id;
    let active = pre.workspaces@[a];
    match cmd {
        Command::WorkspaceSwitch { id } => {},
        Command::WindowFocus { id } => {
            if pre.windows@.contains_key(id.0) && focus_changes(pre, id) {
                let wk = pre.windows@[id.0].workspace_id;
                if wk == a {
                    if pre.workspaces@[wk].focused_window != Some(id) {
                        assert(post.workspaces@[wk].focused_window == Some(id));
                    }
                }
            }
        },
        Command::WindowFocusDir { direction } => {
            let step = focus_step(active, direction);
            if step is Some && step != active.focused_window {
                assert(post.workspaces@[a].focused_window == step);
            }
        },
        Command::WindowSwapMaster => {
            if swaps_master(active) {
                let f = active.focused_window->0;
                crate::state::workspace::lemma_position_in(active.windows@, f);
                let p = crate::state::workspace::position_in(active.windows@, f);
                assert(active.wf());
                assert(post.workspaces@[a].windows@[0] == active.windows@[p]);
                assert(active.windows@[0] != active.windows@[p]);
            }
        },
        Command::WindowClose { id } => {
            if let Some(w) = crate::dispatch::outcome::target_window(pre, id) {
                if pre.windows@.contains_key(w.0) {
                    assert(!post.windows@.contains_key(w.0));
                }
            }
        },
        Command::WindowToggleFloating { id } => {
            if let Some(w) = crate::dispatch::outcome::target_window(pre, id) {
                if pre.windows@.contains_key(w.0) {
                    assert(post.windows@[w.0].floating != pre.windows@[w.0].floating);
                }
            }
        },
        Command::WindowToggleFullscreen { id } => {
            if let Some(w) = crate::dispatch::outcome::target_window(pre, id) {
                if pre.windows@.contains_key(w.0) {
                    assert(post.windows@[w.0].fullscreen != pre.windows@[w.0].fullscreen);
                }
            }
        },
        Command::WindowMoveToWorkspace { window_id, workspace_id } => {
            if let Some(w) = crate::dispatch::outcome::target_window(pre, window_id) {
                if pre.workspaces@.contains_key(workspace_id) && pre.windows@.contains_key(w.0)
                    && pre.windows@[w.0].workspace_id != workspace_id {
                    assert(post.windows@[w.0].workspace_id == workspace_id);
                }
            }
        },
        Command::LayoutSet { layout } => {
            if pre_d.layout_registry.knows(layout@) && layout@ != active.layout@ {
                assert(post.workspaces@[a].layout@ == layout@);
            }
        },
        Command::LayoutSetGap { gap } => {},
        Command::LayoutSetRatio { ratio } => {},
        _ => {},
    }
}

proof fn lemma_trunc_div_bound(a: int, b: int)
    requires
        b >= 1,
    ensures
        trunc_div(a, b) <= if a >= 0 { a } else { 0 },
{
    if a >= 0 {
        assert(a / b <= a) by (nonlinear_arith)
            requires
                a >= 0,
                b >= 1,
        ;
    } else {
        assert((-a) / b >= 0) by (nonlinear_arith)
            requires
                -a > 0,
                b >= 1,
        ;
    }
}

/// The master layout gives every window a rectangle at least one pixel wide and high; a
/// single window fills the area inside the gap; and the master ratio counts only clamped to
/// 0.1..=0.9. (`MasterLayout::arrange` gives the windows these rectangles, one each, in
/// order.)
pub proof fn law_master_layout_rects(i: int, n: int, area: Rect, cfg: LayoutConfig)
    requires
        0 <= i < n,
        master_fits(n, area, cfg),
    ensures
        master_rect(i, n, area, cfg).width >= 1,
        master_rect(i, n, area, cfg).height >= 1,
        n == 1 ==> master_rect(i, n, area, cfg) == (Rect {
            x: (area.x + gap_of(cfg)) as i32,
            y: (area.y + gap_of(cfg)) as i32,
            width: at_least_one(signed(area.width) - 2 * gap_of(cfg)) as u32,
            height: at_least_one(signed(area.height) - 2 * gap_of(cfg)) as u32,
        }),
        master_rect(i, n, area, cfg) == master_rect(
            i,
            n,
            area,
            LayoutConfig { master_ratio: clamped_ratio(cfg.master_ratio) as u32, ..cfg },
        ),
{
    let g = gap_of(cfg);
    let w = signed(area.width);
    let h = signed(area.height);
    let cfg2 = LayoutConfig { master_ratio: clamped_ratio(cfg.master_ratio) as u32, ..cfg };
    assert(clamped_ratio(cfg2.master_ratio) == clamped_ratio(cfg.master_ratio));
    assert(gap_of(cfg2) == g);
    assert(stack_cell_height(n, area, cfg2) == stack_cell_height(n, area, cfg));
    if n >= 2 && w - 3 * g > 0 {
        let total_w = w - 3 * g;
        let ratio = clamped_ratio(cfg.master_ratio);
        let mw = master_width(total_w, ratio);
        assert(0 <= mw <= total_w) by (nonlinear_arith)
            requires
                total_w > 0,
                1000 <= ratio <= 9000,
                mw == (total_w * ratio + 5000) / 10000,
        ;
        lemma_trunc_div_bound(h - n * g, n - 1);
        if i > 0 {
            let idx = i - 1;
            let single = stack_cell_height(n, area, cfg);
            assert(0 <= idx <= n - 2);
            assert(crate::layout::in_i32(area.y + h - g - (area.y + g + idx * (single + g))));
            assert(stack_y(idx, n, area, cfg) == area.y + g + idx * (single + g));
        }
    }
}
/// Telling a client the same configuration a second time changes nothing: no configure is
/// sent again and no resize is waited for.
pub proof fn law_configure_settles(old: PendingConfigure, t: ConfigureTarget)
    ensures
        configure_update_of(configure_update_of(old, t).pending, t) == (ConfigureUpdate {
            pending: configure_update_of(old, t).pending,
            resized: false,
            changed: false,
        }),
{
}

/// Key names denote their XKB keysyms: a lowercase letter or a digit its Latin-1 code, the
/// punctuation names the code of their character, and the editing, cursor and whitespace
/// keys their XKB function keysyms (`XK_Left` is 0xff51, `XK_Up` 0xff52, `XK_Right` 0xff53,
/// `XK_Down` 0xff54, and so on).
pub proof fn law_key_names_are_xkb_keysyms(c: char)
    ensures
        ('a' <= c <= 'z' || '0' <= c <= '9') ==> keysym_of(seq![c]) == Some(c as u32),
        keysym_of("return"@) == Some(0xff0du32),
        keysym_of("enter"@) == Some(0xff0du32),
        keysym_of("escape"@) == Some(0xff1bu32),
        keysym_of("tab"@) == Some(0xff09u32),
        keysym_of("backspace"@) == Some(0xff08u32),
        keysym_of("delete"@) == Some(0xffffu32),
        keysym_of("insert"@) == Some(0xff63u32),
        keysym_of("home"@) == Some(0xff50u32),
        keysym_of("end"@) == Some(0xff57u32),
        keysym_of("page_up"@) == Some(0xff55u32),
        keysym_of("prior"@) == Some(0xff55u32),
        keysym_of("page_down"@) == Some(0xff56u32),
        keysym_of("next"@) == Some(0xff56u32),
        keysym_of("left"@) == Some(0xff51u32),
        keysym_of("up"@) == Some(0xff52u32),
        keysym_of("right"@) == Some(0xff53u32),
        keysym_of("down"@) == Some(0xff54u32),
        keysym_of("space"@) == Some(' ' as u32),
        keysym_of("comma"@) == Some(',' as u32),
        keysym_of("period"@) == Some('.' as u32),
        keysym_of("slash"@) == Some('/' as u32),
        keysym_of("semicolon"@) == Some(';' as u32),
        keysym_of("apostrophe"@) == Some('\'' as u32),
        keysym_of("minus"@) == Some('-' as u32),
        keysym_of("equal"@) == Some('=' as u32),
        keysym_of("grave"@) == Some('`' as u32),
        keysym_of("backslash"@) == Some('\\' as u32),
        keysym_of("bracketleft"@) == Some('[' as u32),
        keysym_of("bracketright"@) == Some(']' as u32),
        keysym_of("plus"@) == Some('+' as u32),
{
    reveal_strlit("return");
    reveal_strlit("enter");
    reveal_strlit("escape");
    reveal_strlit("tab");
    reveal_strlit("space");
    reveal_strlit("backspace");
    reveal_strlit("delete");
    reveal_strlit("insert");
    reveal_strlit("home");
    reveal_strlit("end");
    reveal_strlit("page_up");
    reveal_strlit("prior");
    reveal_strlit("page_down");
    reveal_strlit("next");
    reveal_strlit("left");
    reveal_strlit("up");
    reveal_strlit("right");
    reveal_strlit("down");
    reveal_strlit("comma");
    reveal_strlit("period");
    reveal_strlit("slash");
    reveal_strlit("semicolon");
    reveal_strlit("apostrophe");
    reveal_strlit("minus");
    reveal_strlit("equal");
    reveal_strlit("grave");
    reveal_strlit("backslash");
    reveal_strlit("bracketleft");
    reveal_strlit("bracketright");
    reveal_strlit("plus");
    assert("backslash"@[5] != "backspace"@[5]);
    assert("backslash"@[0] != "semicolon"@[0]);
}

/// The names "f1" to "f9" denote the XKB function keys `XK_F1` (0xffbe) to `XK_F9`.
pub proof fn law_function_key_names(c: char)
    requires
        '1' <= c <= '9',
    ensures
        keysym_of(seq!['f', c]) == Some((0xffbe + (c as u32 - '1' as u32)) as u32),
{
    reveal_strlit("return");
    reveal_strlit("enter");
    reveal_strlit("escape");
    reveal_strlit("tab");
    reveal_strlit("space");
    reveal_strlit("backspace");
    reveal_strlit("delete");
    reveal_strlit("insert");
    reveal_strlit("home");
    reveal_strlit("end");
    reveal_strlit("page_up");
    reveal_strlit("prior");
    reveal_strlit("page_down");
    reveal_strlit("next");
    reveal_strlit("left");
    reveal_strlit("up");
    reveal_strlit("right");
    reveal_strlit("down");
    reveal_strlit("comma");
    reveal_strlit("period");
    reveal_strlit("slash");
    reveal_strlit("semicolon");
    reveal_strlit("apostrophe");
    reveal_strlit("minus");
    reveal_strlit("equal");
    reveal_strlit("grave");
    reveal_strlit("backslash");
    reveal_strlit("bracketleft");
    reveal_strlit("bracketright");
    reveal_strlit("plus");
    let f = seq!['f', c];
    let d = seq![c];
    assert(f != "up"@) by {
        assert(f[0] != "up"@[0]);
    }
    assert(f.drop_first() =~= d);
    assert(d.drop_last() =~= Seq::<char>::empty());
    assert(d.last() == c);
    assert(crate::text::digits_value(d) == crate::text::digits_value(d.drop_last()) * 10 + ((c as u32) - 48) as nat);
    assert(crate::text::all_digits(d));
    assert(crate::input::keybindings::named_keysym(f) is None);
    assert(crate::text::parse_unsigned(d, u32::MAX as nat) == Some(((c as u32) - 48) as nat));
}

/// The names `truss.set` takes: "gap", "ratio", "bg_color", "border_width" or
/// "border.width", "active_border_color", "border.active" or "border.active_color", and
/// "inactive_border_color", "border.inactive" or "border.inactive_color" each refer to their
/// setting, and no other name refers to any.
pub proof fn law_setting_names(name: Seq<char>)
    ensures
        (setting_kind(name) == SettingKind::Gap) <==> name == "gap"@,
        (setting_kind(name) == SettingKind::Ratio) <==> name == "ratio"@,
        (setting_kind(name) == SettingKind::BgColor) <==> name == "bg_color"@,
        (setting_kind(name) == SettingKind::BorderWidth) <==> (name == "border_width"@ || name == "border.width"@),
        (setting_kind(name) == SettingKind::ActiveBorderColor) <==> (name == "active_border_color"@
            || name == "border.active"@ || name == "border.active_color"@),
        (setting_kind(name) == SettingKind::InactiveBorderColor) <==> (name == "inactive_border_color"@
            || name == "border.inactive"@ || name == "border.inactive_color"@),
{
    reveal_strlit("gap");
    reveal_strlit("ratio");
    reveal_strlit("bg_color");
    reveal_strlit("border_width");
    reveal_strlit("border.width");
    reveal_strlit("active_border_color");
    reveal_strlit("border.active");
    reveal_strlit("border.active_color");
    reveal_strlit("inactive_border_color");
    reveal_strlit("border.inactive");
    reveal_strlit("border.inactive_color");
    assert("gap"@.len() == 3);
    assert("ratio"@.len() == 5);
    assert("bg_color"@.len() == 8);
    assert("border_width"@.len() == 12);
    assert("border.width"@.len() == 12);
    assert("active_border_color"@.len() == 19);
    assert("border.active"@.len() == 13);
    assert("border.active_color"@.len() == 19);
    assert("inactive_border_color"@.len() == 21);
    assert("border.inactive"@.len() == 15);
    assert("border.inactive_color"@.len() == 21);
    assert("border_width"@[6] != "border.width"@[6]);
    assert("active_border_color"@[0] != "border.active_color"@[0]);
    assert("inactive_border_color"@[0] != "border.inactive_color"@[0]);
}

/// A window rule's matcher accepts a window exactly when every criterion it gives holds: an
/// app id pattern needs an app id that matches it, and a title pattern a title that matches
/// it, whatever the other property is.
pub proof fn law_matcher_needs_every_criterion(m: WindowRuleMatcher, w: Window)
    ensures
        m.accepts(w) <==> {
            &&& (m.app_id matches Some(p) ==> (w.app_id matches Some(a) && pattern_matches(a@, p@)))
            &&& (m.title matches Some(p) ==> (w.title matches Some(t) && pattern_matches(t@, p@)))
        },
        m.title is Some && (w.title is None || !pattern_matches(w.title->0@, m.title->0@)) ==> !m.accepts(w),
        m.app_id is Some && (w.app_id is None || !pattern_matches(w.app_id->0@, m.app_id->0@)) ==> !m.accepts(w),
{
}

/// The window a `truss msg` word list names after its first word: its number, if that
/// parses as a `u64`.
pub open spec fn msg_window(w: Seq<Seq<char>>) -> Option<WindowId> {
    if w.len() > 1 {
        match parse_unsigned(w[1], u64::MAX as nat) {
            Some(n) => Some(WindowId(n as u64)),
            None => None,
        }
    } else {
        None
    }
}

/// The number a `truss msg` word list gives after its first word, or `default` when there is
/// none that parses as a `u32`.
pub open spec fn msg_number_or(w: Seq<Seq<char>>, default: u32) -> u32 {
    if w.len() > 1 {
        match parse_unsigned(w[1], u32::MAX as nat) {
            Some(n) => n as u32,
            None => default,
        }
    } else {
        default
    }
}

/// Each `truss msg` word builds the command of the same name: `toggle-fullscreen` makes the
/// named (or focused) window fullscreen, `toggle-floating` floats it, `close-window` closes
/// it, `workspace-switch` switches to the named workspace (1 by default), and so on.
pub proof fn law_msg_words_name_their_commands(args: Seq<String>, ratio: Option<i64>, r: Result<Command, MsgError>)
    requires
        msg_outcome(args, ratio, r),
    ensures
        texts(args).len() == 0 ==> r == Err::<Command, MsgError>(MsgError::MissingCommand),
        texts(args).len() > 0 ==> {
            let w = texts(args);
            &&& w[0] == "state-get"@ ==> r == Ok::<Command, MsgError>(Command::StateGet)
            &&& w[0] == "workspace-switch"@ ==> r == Ok::<Command, MsgError>(Command::WorkspaceSwitch { id: msg_number_or(w, 1) })
            &&& w[0] == "window-focus-dir"@ ==> r == Ok::<Command, MsgError>(Command::WindowFocusDir {
                direction: if w.len() > 1 && w[1] == "prev"@ { Direction::Prev } else { Direction::Next },
            })
            &&& w[0] == "swap-master"@ ==> r == Ok::<Command, MsgError>(Command::WindowSwapMaster)
            &&& w[0] == "close-window"@ ==> r == Ok::<Command, MsgError>(Command::WindowClose { id: msg_window(w) })
            &&& w[0] == "toggle-floating"@ ==> r == Ok::<Command, MsgError>(Command::WindowToggleFloating { id: msg_window(w) })
            &&& w[0] == "toggle-fullscreen"@ ==> r == Ok::<Command, MsgError>(Command::WindowToggleFullscreen { id: msg_window(w) })
            &&& w[0] == "layout-set"@ ==> (r matches Ok(Command::LayoutSet { layout })
                && layout@ == if w.len() > 1 { w[1] } else { "master"@ })
            &&& w[0] == "set-gap"@ ==> r == Ok::<Command, MsgError>(Command::LayoutSetGap { gap: msg_number_or(w, 8) })
            &&& w[0] == "set-ratio"@ ==> r == Ok::<Command, MsgError>(Command::LayoutSetRatio { ratio })
            &&& w[0] == "spawn"@ ==> r is Ok && r->Ok_0 is Spawn
            &&& w[0] == "quit"@ ==> r == Ok::<Command, MsgError>(Command::CompositorQuit)
        },
{
    reveal_strlit("state-get");
    assert("state-get"@.len() == 9);
    reveal_strlit("workspace-switch");
    assert("workspace-switch"@.len() == 16);
    reveal_strlit("window-focus-dir");
    assert("window-focus-dir"@.len() == 16);
    reveal_strlit("swap-master");
    assert("swap-master"@.len() == 11);
    reveal_strlit("close-window");
    assert("close-window"@.len() == 12);
    reveal_strlit("toggle-floating");
    assert("toggle-floating"@.len() == 15);
    reveal_strlit("toggle-fullscreen");
    assert("toggle-fullscreen"@.len() == 17);
    reveal_strlit("layout-set");
    assert("layout-set"@.len() == 10);
    reveal_strlit("set-gap");
    assert("set-gap"@.len() == 7);
    reveal_strlit("set-ratio");
    assert("set-ratio"@.len() == 9);
    reveal_strlit("spawn");
    assert("spawn"@.len() == 5);
    reveal_strlit("quit");
    assert("quit"@.len() == 4);
    assert("workspace-switch"@[1] != "window-focus-dir"@[1]);
    assert("set-ratio"@[1] != "state-get"@[1]);
}

/// The ceiling of the square root of n, reached counting up from k, is c.
proof fn lemma_grid_columns_are(n: nat, k: nat, c: nat)
    requires
        1 <= k <= c,
        c * c >= n,
        (c - 1) * (c - 1) < n,
    ensures
        ceil_sqrt_from(n, k) == c,
    decreases c - k,
{
    if k < c {
        assert(k * k < n) by (nonlinear_arith)
            requires
                1 <= k <= c - 1,
                (c - 1) * (c - 1) < n,
        ;
        assert(k < n) by (nonlinear_arith)
            requires
                k * k < n,
                k >= 1,
        ;
        lemma_grid_columns_are(n, k + 1, c);
    }
}

/// The grid layout's cells. With n windows there are c columns, the least c with c·c >= n
/// (the ceiling of the square root of n), and r rows, the least r with r·c >= n. Window i
/// sits in column i % c and row i / c. Each cell is max(1, max(0, W - (c+1)·gap) / c) wide
/// and max(1, max(0, H - (r+1)·gap) / r) high, and cells are separated, and set in from the
/// area's edges, by the gap. With a single row every window gets the full inner height
/// H - 2·gap.
pub proof fn law_grid_cells(i: int, n: nat, area: Rect, cfg: LayoutConfig, c: nat, r: nat)
    requires
        0 <= i < n,
        grid_fits(n, area, cfg),
        c >= 1,
        c * c >= n,
        (c - 1) * (c - 1) < n,
        r * c >= n,
        (r - 1) * c < n,
    ensures
        ({
            let g = (cfg.gap as i32) as int;
            let w = (area.width as i32) as int;
            let h = (area.height as i32) as int;
            let free_w = w - (c + 1) * g;
            let free_h = h - (r + 1) * g;
            let cw = if free_w <= 0 { 1 } else if free_w / (c as int) < 1 { 1 } else { free_w / (c as int) };
            let ch = if free_h <= 0 { 1 } else if free_h / (r as int) < 1 { 1 } else { free_h / (r as int) };
            let cell = grid_rect(i, n, area, cfg);
            &&& cell.width as int == cw
            &&& cell.height as int == ch
            &&& cell.x as int == area.x + g + (i % (c as int)) * (cw + g)
            &&& cell.y as int == area.y + g + (i / (c as int)) * (ch + g)
        }),
{
    lemma_grid_columns_are(n, 1, c);
    assert(grid_cols(n) == c);
    assert(r >= 1) by (nonlinear_arith)
        requires
            r * c >= n,
            n >= 1,
            c >= 1,
    ;
    assert((n + c - 1) / (c as int) == r as int) by (nonlinear_arith)
        requires
            r * c >= n,
            (r - 1) * c < n,
            c >= 1,
            n >= 1,
    ;
    assert(grid_rows(n) == r);
    assert(grid_cell_fits(i, n, area, cfg));
    let g = gap_of(cfg);
    let fw = signed(area.width) - g * (c + 1);
    let fh = signed(area.height) - g * (r + 1);
    assert(g * (c + 1) == (c + 1) * g) by (nonlinear_arith);
    assert(g * (r + 1) == (r + 1) * g) by (nonlinear_arith);
    if fw > 0 {
        assert(fw / (c as int) <= fw) by (nonlinear_arith)
            requires
                fw > 0,
                c >= 1,
        ;
    }
    if fh > 0 {
        assert(fh / (r as int) <= fh) by (nonlinear_arith)
            requires
                fh > 0,
                r >= 1,
        ;
    }
}

/// `truss msg spawn` sends the words after `spawn` as one command line: nothing for none, the
/// word itself for one, and one more word adds a space and that word.
pub proof fn law_msg_spawn_joins_words(
    args: Seq<String>,
    ratio: Option<i64>,
    r: Result<Command, MsgError>,
    shorter: Result<Command, MsgError>,
)
    requires
        args.len() >= 1,
        args[0]@ == "spawn"@,
        msg_outcome(args, ratio, r),
        msg_outcome(args.drop_last(), ratio, shorter),
    ensures
        r matches Ok(Command::Spawn { command }) && {
            &&& args.len() == 1 ==> command@ == Seq::<char>::empty()
            &&& args.len() == 2 ==> command@ == args[1]@
            &&& args.len() >= 3 ==> (shorter matches Ok(Command::Spawn { command: before })
                && command@ == before@ + " "@ + args.last()@)
        },
{
    reveal_strlit("state-get");
    assert("state-get"@.len() == 9);
    reveal_strlit("workspace-switch");
    assert("workspace-switch"@.len() == 16);
    reveal_strlit("window-focus-dir");
    assert("window-focus-dir"@.len() == 16);
    reveal_strlit("swap-master");
    assert("swap-master"@.len() == 11);
    reveal_strlit("close-window");
    assert("close-window"@.len() == 12);
    reveal_strlit("toggle-floating");
    assert("toggle-floating"@.len() == 15);
    reveal_strlit("toggle-fullscreen");
    assert("toggle-fullscreen"@.len() == 17);
    reveal_strlit("layout-set");
    assert("layout-set"@.len() == 10);
    reveal_strlit("set-gap");
    assert("set-gap"@.len() == 7);
    reveal_strlit("set-ratio");
    assert("set-ratio"@.len() == 9);
    reveal_strlit("spawn");
    assert("spawn"@.len() == 5);
    let w = texts(args);
    assert(w[0] == "spawn"@);
    if args.len() >= 2 {
        let v = texts(args.drop_last());
        assert(v[0] == "spawn"@);
        assert(w.drop_first().drop_last() =~= v.drop_first());
        assert(w.drop_first().last() == args.last()@);
        if args.len() == 2 {
            assert(w.drop_first() =~= seq![args[1]@]);
        }
    }
}

} // verus!
