use vstd::prelude::*;
use vstd::string::*;

use crate::text::{
    chars_of, contains_chars, has_infix, is_char, split_chars, split_on, string_from_chars,
    strip_leading, strip_trailing, to_lowercase, trim_chars, trim_end_matches, trim_start_matches,
    trimmed, text_lowercase,
};
use super::window::Window;

verus! {

/// The pattern with anchors and one level of grouping taken off: leading `^`, trailing `$`,
/// leading `(` and trailing `)` characters are stripped in that order.
pub open spec fn pattern_core(pattern: Seq<char>) -> Seq<char> {
    strip_trailing(
        strip_leading(strip_trailing(strip_leading(pattern, is_char('^')), is_char('$')), is_char('(')),
        is_char(')'),
    )
}

/// One `|`-separated alternative matches: it is not blank and its lowercase form occurs in
/// the (lowercased) candidate.
pub open spec fn alternative_matches(candidate_lower: Seq<char>, part: Seq<char>) -> bool {
    trimmed(part).len() > 0 && has_infix(candidate_lower, text_lowercase(trimmed(part)))
}

/// Case-insensitive substring matching with a tiny pattern language: anchors and
/// parentheses are ignored, and `a|b|c` matches when any non-blank alternative occurs.
pub open spec fn pattern_matches(candidate: Seq<char>, pattern: Seq<char>) -> bool {
    let cand = text_lowercase(candidate);
    let pat = pattern_core(pattern);
    if pat.contains('|') {
        exists|i: int|
            0 <= i < split_on(pat, '|').len() && #[trigger] alternative_matches(
                cand,
                split_on(pat, '|')[i],
            )
    } else {
        has_infix(cand, text_lowercase(pat))
    }
}

fn lowercase_chars(v: &Vec<char>) -> (r: Vec<char>)
    ensures
        r@ == text_lowercase(v@),
{
    let s = string_from_chars(v);
    let l = to_lowercase(s.as_str());
    chars_of(l.as_str())
}

fn has_char(v: &Vec<char>, c: char) -> (r: bool)
    ensures
        r == v@.contains(c),
{
    let mut i: usize = 0;
    while i < v.len()
        invariant
            i <= v.len(),
            forall|j: int| 0 <= j < i ==> v@[j] != c,
        decreases v.len() - i,
    {
        if v[i] == c {
            return true;
        }
        i = i + 1;
    }
    false
}

/// Whether `candidate` matches `pattern` (see `pattern_matches`).
#[verifier::loop_isolation(false)]
pub fn matches_pattern(candidate: &str, pattern: &str) -> (r: bool)
    ensures
        r == pattern_matches(candidate@, pattern@),
{
    let cand = chars_of(candidate);
    let cand_lower = lowercase_chars(&cand);
    let p0 = chars_of(pattern);
    let p1 = trim_start_matches(&p0, '^');
    let p2 = trim_end_matches(&p1, '$');
    let p3 = trim_start_matches(&p2, '(');
    let pat = trim_end_matches(&p3, ')');
    if has_char(&pat, '|') {
        let parts = split_chars(&pat, '|');
        let mut i: usize = 0;
        while i < parts.len()
            invariant
                i <= parts@.len(),
                parts@.len() == split_on(pat@, '|').len(),
                forall|k: int| 0 <= k < parts@.len() ==> #[trigger] parts@[k]@ == split_on(pat@, '|')[k],
                forall|k: int| 0 <= k < i ==> !#[trigger] alternative_matches(cand_lower@, split_on(pat@, '|')[k]),
            decreases parts.len() - i,
        {
            let p = trim_chars(&parts[i]);
            if p.len() > 0 {
                let pl = lowercase_chars(&p);
                if contains_chars(&cand_lower, &pl) {
                    assert(alternative_matches(cand_lower@, split_on(pat@, '|')[i as int]));
                    return true;
                }
            }
            i = i + 1;
        }
        false
    } else {
        let pl = lowercase_chars(&pat);
        contains_chars(&cand_lower, &pl)
    }
}

/// Criteria to match windows for automated rules.
#[derive(Debug, Clone, PartialEq, Eq)]
pub struct WindowRuleMatcher {
    /// Match app_id substring or exact string (case-insensitive)
    pub app_id: Option<String>,
    /// Match title substring or exact string (case-insensitive)
    pub title: Option<String>,
}

/// An optional requirement on an optional window property.
pub open spec fn requirement_met(required: Option<String>, actual: Option<String>) -> bool {
    match required {
        None => true,
        Some(req) => match actual {
            Some(a) => pattern_matches(a@, req@),
            None => false,
        },
    }
}

impl WindowRuleMatcher {
    /// Each given criterion matches the corresponding window property (absent properties
    /// never match).
    pub open spec fn accepts(self, window: Window) -> bool {
        requirement_met(self.app_id, window.app_id) && requirement_met(self.title, window.title)
    }

    pub fn matches(&self, window: &Window) -> (r: bool)
        ensures
            r == self.accepts(*window),
    {
        if let Some(req_app_id) = &self.app_id {
            match &window.app_id {
                Some(app_id) => {
                    if !matches_pattern(app_id.as_str(), req_app_id.as_str()) {
                        return false;
                    }
                },
                None => return false,
            }
        }
        if let Some(req_title) = &self.title {
            match &window.title {
                Some(title) => {
                    if !matches_pattern(title.as_str(), req_title.as_str()) {
                        return false;
                    }
                },
                None => return false,
            }
        }
        true
    }
}

impl Default for WindowRuleMatcher {
    fn default() -> (m: WindowRuleMatcher)
        ensures
            m.app_id is None,
            m.title is None,
    {
        WindowRuleMatcher { app_id: None, title: None }
    }
}

/// Actions applied when a window matches a rule.
#[derive(Debug, Clone, PartialEq, Eq)]
pub struct WindowRuleAction {
    /// Force window to open floating
    pub open_floating: Option<bool>,
    /// Force window to open on a specific workspace
    pub open_on_workspace: Option<u32>,
    /// Force window to open fullscreen
    pub open_fullscreen: Option<bool>,
    /// Automatically center floating window on screen
    pub center: Option<bool>,
    /// Pin window across all workspaces (sticky)
    pub pin: Option<bool>,
    /// Initial size (pixels or percentage like "800 600" or "25% 25%")
    pub initial_size: Option<String>,
    /// Initial move/position (pixels or percentage like "100 100" or "72% 7%")
    pub initial_position: Option<String>,
    /// Custom opacity stored as percent 0..=100
    pub opacity: Option<u8>,
}

impl Default for WindowRuleAction {
    fn default() -> (a: WindowRuleAction)
        ensures
            a.open_floating is None,
            a.open_on_workspace is None,
            a.open_fullscreen is None,
            a.center is None,
            a.pin is None,
            a.initial_size is None,
            a.initial_position is None,
            a.opacity is None,
    {
        WindowRuleAction {
            open_floating: None,
            open_on_workspace: None,
            open_fullscreen: None,
            center: None,
            pin: None,
            initial_size: None,
            initial_position: None,
            opacity: None,
        }
    }
}

/// `o` if it is set, else `fallback`.
pub open spec fn or_keep<T>(o: Option<T>, fallback: T) -> T {
    match o {
        Some(v) => v,
        None => fallback,
    }
}

/// The window with every action that is set written over it.
pub open spec fn with_actions(w: Window, a: WindowRuleAction) -> Window {
    Window {
        floating: or_keep(a.open_floating, w.floating),
        workspace_id: or_keep(a.open_on_workspace, w.workspace_id),
        fullscreen: or_keep(a.open_fullscreen, w.fullscreen),
        center: or_keep(a.center, w.center),
        pinned: or_keep(a.pin, w.pinned),
        initial_size: if a.initial_size is Some { a.initial_size } else { w.initial_size },
        initial_position: if a.initial_position is Some {
            a.initial_position
        } else {
            w.initial_position
        },
        opacity: if a.opacity is Some { a.opacity } else { w.opacity },
        ..w
    }
}

fn clone_opt_string(o: &Option<String>) -> (r: Option<String>)
    ensures
        r == *o,
{
    match o {
        Some(s) => Some(s.clone()),
        None => None,
    }
}

/// A complete window rule with a matcher and corresponding actions.
#[derive(Debug, Clone, PartialEq, Eq)]
pub struct WindowRule {
    pub name: String,
    pub match_criteria: WindowRuleMatcher,
    pub action: WindowRuleAction,
}

impl WindowRule {
    /// What applying the rule does to a window.
    pub open spec fn effect(self, w: Window) -> Window {
        if self.match_criteria.accepts(w) {
            with_actions(w, self.action)
        } else {
            w
        }
    }

    pub fn new(name: String, match_criteria: WindowRuleMatcher, action: WindowRuleAction) -> (r:
        WindowRule)
        ensures
            r.name == name,
            r.match_criteria == match_criteria,
            r.action == action,
    {
        WindowRule { name, match_criteria, action }
    }

    /// Apply this rule's action to the target window; returns whether the rule matched.
    #[verifier::rlimit(50)]
    pub fn apply(&self, window: &mut Window) -> (matched: bool)
        ensures
            matched == self.match_criteria.accepts(*old(window)),
            *final(window) == self.effect(*old(window)),
    {
        if self.match_criteria.matches(window) {
            if let Some(floating) = self.action.open_floating {
                window.floating = floating;
            }
            if let Some(ws) = self.action.open_on_workspace {
                window.workspace_id = ws;
            }
            if let Some(fs) = self.action.open_fullscreen {
                window.fullscreen = fs;
            }
            if let Some(center) = self.action.center {
                window.center = center;
            }
            if let Some(pin) = self.action.pin {
                window.pinned = pin;
            }
            if self.action.initial_size.is_some() {
                window.initial_size = clone_opt_string(&self.action.initial_size);
            }
            if self.action.initial_position.is_some() {
                window.initial_position = clone_opt_string(&self.action.initial_position);
            }
            if let Some(op) = self.action.opacity {
                window.opacity = Some(op);
            }
            true
        } else {
            false
        }
    }
}

/// The window after each rule, in order, had its effect.
pub open spec fn apply_rules(rules: Seq<WindowRule>, w: Window) -> Window
    decreases rules.len(),
{
    if rules.len() == 0 {
        w
    } else {
        rules.last().effect(apply_rules(rules.drop_last(), w))
    }
}

/// Manager storing and evaluating window rules in order of registration.
#[derive(Debug, Clone)]
pub struct WindowRuleManager {
    rules: Vec<WindowRule>,
}

impl View for WindowRuleManager {
    type V = Seq<WindowRule>;

    closed spec fn view(&self) -> Seq<WindowRule> {
        self.rules@
    }
}

impl WindowRuleManager {
    pub fn new() -> (m: WindowRuleManager)
        ensures
            m@ == Seq::<WindowRule>::empty(),
    {
        WindowRuleManager { rules: Vec::new() }
    }

    pub fn add_rule(&mut self, rule: WindowRule)
        ensures
            final(self)@ == old(self)@.push(rule),
    {
        self.rules.push(rule);
    }

    pub fn clear(&mut self)
        ensures
            final(self)@ == Seq::<WindowRule>::empty(),
    {
        self.rules.clear();
    }

    /// Evaluate all rules, in registration order, against a window.
    pub fn evaluate_and_apply(&self, window: &mut Window)
        ensures
            *final(window) == apply_rules(self@, *old(window)),
    {
        let mut i: usize = 0;
        while i < self.rules.len()
            invariant
                i <= self.rules@.len(),
                *window == apply_rules(self.rules@.take(i as int), *old(window)),
            decreases self.rules.len() - i,
        {
            assert(self.rules@.take(i + 1).drop_last() =~= self.rules@.take(i as int));
            self.rules[i].apply(window);
            i = i + 1;
        }
        assert(self.rules@.take(self.rules@.len() as int) =~= self.rules@);
    }
}

impl Default for WindowRuleManager {
    fn default() -> (m: WindowRuleManager)
        ensures
            m@ == Seq::<WindowRule>::empty(),
    {
        WindowRuleManager::new()
    }
}

} // verus!
