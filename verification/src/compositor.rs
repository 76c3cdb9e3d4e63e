use vstd::prelude::*;

use crate::state::rules::{apply_rules, WindowRule, WindowRuleManager};
use crate::state::window::{Window, WindowId};
use crate::state::State;

verus! {

/// How keyboard focus follows the pointer.
#[derive(Debug, Clone, Copy, PartialEq, Eq, Structural)]
pub enum FocusMode {
    /// Focus changes on click.
    Click,
    /// Focus follows the window under the pointer.
    FollowMouse,
}

impl Default for FocusMode {
    fn default() -> (m: FocusMode)
        ensures
            m == FocusMode::Click,
    {
        FocusMode::Click
    }
}

/// XKB keyboard settings and key repeat.
#[derive(Debug, Clone, PartialEq, Eq)]
pub struct KeyboardConfig {
    pub rules: String,
    pub model: String,
    pub layout: String,
    pub variant: String,
    pub options: Option<String>,
    /// Repeats per second.
    pub repeat_rate: i32,
    /// Delay before repeating, in milliseconds.
    pub repeat_delay: i32,
    pub numlock_by_default: bool,
}

impl Default for KeyboardConfig {
    fn default() -> (c: KeyboardConfig)
        ensures
            c.rules@ == Seq::<char>::empty(),
            c.model@ == Seq::<char>::empty(),
            c.layout@ == Seq::<char>::empty(),
            c.variant@ == Seq::<char>::empty(),
            c.options is None,
            c.repeat_rate == 25,
            c.repeat_delay == 200,
            !c.numlock_by_default,
    {
        KeyboardConfig {
            rules: String::new(),
            model: String::new(),
            layout: String::new(),
            variant: String::new(),
            options: None,
            repeat_rate: 25,
            repeat_delay: 200,
            numlock_by_default: false,
        }
    }
}

proof fn lemma_rules_keep_id(rules: Seq<WindowRule>, w: Window)
    ensures
        apply_rules(rules, w).id == w.id,
    decreases rules.len(),
{
    if rules.len() > 0 {
        lemma_rules_keep_id(rules.drop_last(), w);
    }
}

/// `post` holds `pre`'s windows with window `id` replaced by `w`, and is otherwise `pre`.
pub open spec fn window_replaced(pre: State, post: State, id: WindowId, w: Window) -> bool {
    &&& post.windows@ == pre.windows@.insert(id.0, w)
    &&& post.workspaces == pre.workspaces
    &&& post.active_workspace_id == pre.active_workspace_id
    &&& post.previous_workspace_id == pre.previous_workspace_id
    &&& post.special_workspace_active == pre.special_workspace_active
    &&& post.focus_history == pre.focus_history
    &&& post.next_id() == pre.next_id()
}

/// What applying the rules to window `id` does: the rules' effects land on the window,
/// except that a workspace change is carried out as a move between workspace lists, and a
/// change to a workspace that does not exist is dropped.
pub open spec fn rules_applied(pre: State, post: State, rules: Seq<WindowRule>, id: WindowId) -> bool {
    if !pre.windows@.contains_key(id.0) {
        post == pre
    } else {
        let w0 = pre.windows@[id.0];
        let w1 = apply_rules(rules, w0);
        let kept = Window { workspace_id: w0.workspace_id, ..w1 };
        if w1.workspace_id == w0.workspace_id {
            window_replaced(pre, post, id, w1)
        } else if !pre.workspaces@.contains_key(w1.workspace_id) {
            window_replaced(pre, post, id, kept)
        } else {
            exists|mid: State|
                window_replaced(pre, mid, id, kept) && #[trigger] State::move_post(
                    mid,
                    post,
                    id,
                    w1.workspace_id,
                    Ok(()),
                )
        }
    }
}

/// Applies the window rules to window `window_id` and keeps the workspace lists in step:
/// rules work on the window alone, so a workspace a rule asks for is reached by moving the
/// window through the state, and one that does not exist is ignored.
pub fn apply_window_rules(state: &mut State, rules: &WindowRuleManager, window_id: WindowId)
    requires
        old(state).wf(),
    ensures
        rules_applied(*old(state), *final(state), rules@, window_id),
        final(state).wf(),
{
    let ghost pre = *state;
    if !state.windows.contains_key(&window_id.0) {
        return ;
    }
    let mut w = state.windows.remove(&window_id.0).unwrap();
    let original = w.workspace_id;
    let ghost w0 = w;
    rules.evaluate_and_apply(&mut w);
    proof {
        lemma_rules_keep_id(rules@, w0);
    }
    let requested = w.workspace_id;
    if requested == original {
        state.windows.insert(window_id.0, w);
        proof {
            assert(state.windows@ =~= pre.windows@.insert(window_id.0, w));
            lemma_window_edit_wf(pre, *state, window_id);
        }
        return ;
    }
    w.workspace_id = original;
    state.windows.insert(window_id.0, w);
    proof {
        assert(state.windows@ =~= pre.windows@.insert(window_id.0, w));
        lemma_window_edit_wf(pre, *state, window_id);
    }
    if !state.workspaces.contains_key(&requested) {
        return ;
    }
    let ghost mid = *state;
    let r = state.move_window_to_workspace(window_id, requested);
    proof {
        assert(r is Ok);
        assert(State::move_post(mid, *state, window_id, requested, Ok(())));
    }
}

/// Replacing a window by one with the same id and workspace keeps the state well formed.
proof fn lemma_window_edit_wf(pre: State, post: State, id: WindowId)
    requires
        pre.wf(),
        pre.windows@.contains_key(id.0),
        post.windows@ == pre.windows@.insert(id.0, post.windows@[id.0]),
        post.windows@[id.0].id == pre.windows@[id.0].id,
        post.windows@[id.0].workspace_id == pre.windows@[id.0].workspace_id,
        post.workspaces == pre.workspaces,
        post.active_workspace_id == pre.active_workspace_id,
        post.next_id() == pre.next_id(),
    ensures
        post.wf(),
{
    assert forall|w: u64| #[trigger] post.windows@.contains_key(w) implies {
        &&& post.windows@[w].id == WindowId(w)
        &&& w < post.next_id()
        &&& post.workspaces@.contains_key(post.windows@[w].workspace_id)
        &&& post.workspaces@[post.windows@[w].workspace_id].windows@.contains(WindowId(w))
    } by {
        assert(pre.windows@.contains_key(w));
    }
    assert forall|j: u32, t: int|
        #![trigger post.workspaces@[j].windows@[t]]
        post.workspaces@.contains_key(j) && 0 <= t < post.workspaces@[j].windows@.len() implies {
            let w = post.workspaces@[j].windows@[t];
            &&& post.windows@.contains_key(w.0)
            &&& post.windows@[w.0].workspace_id == j
        } by {
        assert(pre.workspaces@[j].windows@[t] == post.workspaces@[j].windows@[t]);
    }
}

} // verus!
