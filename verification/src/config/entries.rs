use vstd::prelude::*;

use crate::input::keybindings::{keysym_from_name, keysym_of, KeyAction, KeyPattern, Keybindings, Modifiers};
use crate::state::rules::{WindowRule, WindowRuleAction, WindowRuleManager, WindowRuleMatcher};
use crate::text::{
    chars_of, split_chars, split_on, str_equal, string_from_chars, to_lowercase, trim_chars,
    trimmed, text_lowercase,
};

verus! {

/// A modifier word as the configuration compares it: trimmed and lowercased.
pub open spec fn modifier_word(t: Seq<char>) -> Seq<char> {
    text_lowercase(trimmed(t))
}

pub open spec fn is_logo_word(w: Seq<char>) -> bool {
    w == "super"@ || w == "mod4"@ || w == "logo"@
}

pub open spec fn known_modifier(w: Seq<char>) -> bool {
    w == "ctrl"@ || w == "alt"@ || w == "shift"@ || is_logo_word(w)
}

/// The modifier words of a `+`-separated modifier list.
pub open spec fn modifier_words(s: Seq<char>) -> Seq<Seq<char>> {
    split_on(s, '+').map_values(|t: Seq<char>| modifier_word(t))
}

/// Whether one of the first `n` words is `w`.
pub open spec fn has_word_before(words: Seq<Seq<char>>, w: Seq<char>, n: int) -> bool {
    exists|i: int| 0 <= i < n && words[i] == w
}

/// Whether one of the first `n` words names the logo (super) key.
pub open spec fn has_logo_before(words: Seq<Seq<char>>, n: int) -> bool {
    exists|i: int| 0 <= i < n && is_logo_word(words[i])
}

proof fn lemma_modifier_names_distinct()
    ensures
        "ctrl"@ != "mod4"@,
        "ctrl"@ != "logo"@,
        "mod4"@ != "logo"@,
        "shift"@ != "super"@,
        "ctrl"@ != "alt"@ && "ctrl"@ != "shift"@ && "ctrl"@ != "super"@,
        "alt"@ != "shift"@ && "alt"@ != "super"@ && "alt"@ != "mod4"@ && "alt"@ != "logo"@,
        "shift"@ != "mod4"@ && "shift"@ != "logo"@,
{
    reveal_strlit("ctrl");
    reveal_strlit("alt");
    reveal_strlit("shift");
    reveal_strlit("super");
    reveal_strlit("mod4");
    reveal_strlit("logo");
    assert("ctrl"@[0] != "mod4"@[0]);
    assert("ctrl"@[0] != "logo"@[0]);
    assert("mod4"@[0] != "logo"@[0]);
    assert("shift"@[1] != "super"@[1]);
}

proof fn lemma_words_step(words: Seq<Seq<char>>, w: Seq<char>, n: int)
    requires
        0 <= n < words.len(),
    ensures
        has_word_before(words, w, n + 1) == (has_word_before(words, w, n) || words[n] == w),
        has_logo_before(words, n + 1) == (has_logo_before(words, n) || is_logo_word(words[n])),
{
    if has_word_before(words, w, n + 1) && words[n] != w {
        let j = choose|j: int| 0 <= j < n + 1 && words[j] == w;
        assert(has_word_before(words, w, n));
    }
    if has_logo_before(words, n + 1) && !is_logo_word(words[n]) {
        let j = choose|j: int| 0 <= j < n + 1 && is_logo_word(words[j]);
        assert(has_logo_before(words, n));
    }
}

/// The modifiers a keybinding's modifier list (such as `"super+shift"`) names: none for a
/// blank list, nothing when a word is unknown.
pub open spec fn modifiers_of(s: Seq<char>) -> Option<Modifiers> {
    let words = modifier_words(s);
    if trimmed(s).len() == 0 {
        Some(Modifiers { ctrl: false, alt: false, shift: false, logo: false })
    } else if forall|i: int| 0 <= i < words.len() ==> known_modifier(#[trigger] words[i]) {
        Some(
            Modifiers {
                ctrl: has_word_before(words, "ctrl"@, words.len() as int),
                alt: has_word_before(words, "alt"@, words.len() as int),
                shift: has_word_before(words, "shift"@, words.len() as int),
                logo: has_logo_before(words, words.len() as int),
            },
        )
    } else {
        None
    }
}

/// Parses a keybinding's modifier list (`"super+shift"`, case-insensitive; blank for none).
pub fn parse_modifiers(mods: &str) -> (r: Option<Modifiers>)
    ensures
        r == modifiers_of(mods@),
{
    let chars = chars_of(mods);
    let t = trim_chars(&chars);
    if t.len() == 0 {
        return Some(Modifiers::none());
    }
    let toks = split_chars(&chars, '+');
    let ghost words = modifier_words(mods@);
    let mut m = Modifiers::none();
    let mut i: usize = 0;
    while i < toks.len()
        invariant
            words == modifier_words(mods@),
            chars@ == mods@,
            trimmed(mods@).len() > 0,
            toks@.len() == words.len(),
            forall|j: int| 0 <= j < toks@.len() ==> #[trigger] toks@[j]@ == split_on(mods@, '+')[j],
            i <= toks@.len(),
            forall|j: int| 0 <= j < i ==> known_modifier(#[trigger] words[j]),
            m.ctrl == has_word_before(words, "ctrl"@, i as int),
            m.alt == has_word_before(words, "alt"@, i as int),
            m.shift == has_word_before(words, "shift"@, i as int),
            m.logo == has_logo_before(words, i as int),
        decreases toks@.len() - i,
    {
        let tt = trim_chars(&toks[i]);
        let s = string_from_chars(&tt);
        let low = to_lowercase(s.as_str());
        let l = low.as_str();
        assert(l@ == words[i as int]);
        proof {
            lemma_modifier_names_distinct();
            lemma_words_step(words, "ctrl"@, i as int);
            lemma_words_step(words, "alt"@, i as int);
            lemma_words_step(words, "shift"@, i as int);
        }
        if str_equal(l, "ctrl") {
            m.ctrl = true;
        } else if str_equal(l, "alt") {
            m.alt = true;
        } else if str_equal(l, "shift") {
            m.shift = true;
        } else if str_equal(l, "super") || str_equal(l, "mod4") || str_equal(l, "logo") {
            m.logo = true;
        } else {
            assert(!known_modifier(words[i as int]));
            return None;
        }
        i = i + 1;
    }
    Some(m)
}

/// A keybinding as the configuration declared it: its modifier list, key name and action,
/// each missing when the declaration did not hold a usable value.
#[derive(Debug)]
pub struct KeybindEntry {
    pub mods: Option<String>,
    pub key: Option<String>,
    pub action: Option<KeyAction>,
}

/// The binding a declaration makes, if all of its parts are present and valid.
pub open spec fn entry_binding(e: KeybindEntry) -> Option<(KeyPattern, KeyAction)> {
    match (e.mods, e.key, e.action) {
        (Some(m), Some(k), Some(a)) => match (
            modifiers_of(m@),
            keysym_of(text_lowercase(trimmed(k@))),
        ) {
            (Some(mods), Some(sym)) => Some((KeyPattern { modifiers: mods, keysym: sym }, a)),
            _ => None,
        },
        _ => None,
    }
}

/// The bindings `m` after each valid declaration of `es`, in order, was bound.
pub open spec fn bind_all(m: Map<KeyPattern, KeyAction>, es: Seq<KeybindEntry>) -> Map<KeyPattern, KeyAction>
    decreases es.len(),
{
    if es.len() == 0 {
        m
    } else {
        let before = bind_all(m, es.drop_last());
        match entry_binding(es.last()) {
            Some((p, a)) => before.insert(p, a),
            None => before,
        }
    }
}

/// Binds every valid declaration, in order; invalid ones are skipped.
pub fn apply_keybinding_entries(kb: &mut Keybindings, entries: &Vec<KeybindEntry>)
    ensures
        final(kb)@ == bind_all(old(kb)@, entries@),
{
    let mut i: usize = 0;
    while i < entries.len()
        invariant
            i <= entries@.len(),
            kb@ == bind_all(old(kb)@, entries@.take(i as int)),
        decreases entries@.len() - i,
    {
        let e = &entries[i];
        assert(entries@.take(i + 1).drop_last() =~= entries@.take(i as int));
        assert(entries@.take(i + 1).last() == *e);
        match (&e.mods, &e.key, &e.action) {
            (Some(m), Some(k), Some(a)) => match (parse_modifiers(m.as_str()), keysym_from_name(k.as_str())) {
                (Some(mods), Some(sym)) => {
                    kb.bind(KeyPattern::new(mods, sym), a.clone());
                },
                _ => {},
            },
            _ => {},
        }
        i = i + 1;
    }
    assert(entries@.take(entries@.len() as int) =~= entries@);
}

/// What a window rule declaration holds besides its name.
#[derive(Debug)]
pub struct RuleFields {
    pub app_id: Option<String>,
    pub title: Option<String>,
    pub floating: Option<bool>,
    pub workspace: Option<u32>,
    pub fullscreen: Option<bool>,
}

/// A window rule as the configuration declared it; `rule` is missing when the declaration
/// held no rule table.
#[derive(Debug)]
pub struct RuleEntry {
    pub name: Option<String>,
    pub rule: Option<RuleFields>,
}

/// `rule` is the window rule that declaration `e` (which holds a rule table) makes: named
/// as declared or "unnamed", matching the given app id and title, and setting the given
/// floating, workspace and fullscreen values.
pub open spec fn rule_made_from(rule: WindowRule, e: RuleEntry) -> bool {
    let f = e.rule->0;
    &&& rule.name@ == match e.name {
        Some(n) => n@,
        None => "unnamed"@,
    }
    &&& rule.match_criteria == (WindowRuleMatcher { app_id: f.app_id, title: f.title })
    &&& rule.action == (WindowRuleAction {
        open_floating: f.floating,
        open_on_workspace: f.workspace,
        open_fullscreen: f.fullscreen,
        center: None,
        pin: None,
        initial_size: None,
        initial_position: None,
        opacity: None,
    })
}

/// The declarations of `es` that hold a rule table, in order.
pub open spec fn rule_declarations(es: Seq<RuleEntry>) -> Seq<RuleEntry>
    decreases es.len(),
{
    if es.len() == 0 {
        Seq::empty()
    } else if es.last().rule is Some {
        rule_declarations(es.drop_last()).push(es.last())
    } else {
        rule_declarations(es.drop_last())
    }
}

fn copy_text(o: &Option<String>) -> (r: Option<String>)
    ensures
        r == *o,
{
    match o {
        Some(s) => Some(s.clone()),
        None => None,
    }
}

/// Adds a window rule for each declaration that holds a rule table, in order.
pub fn apply_rule_entries(manager: &mut WindowRuleManager, entries: &Vec<RuleEntry>)
    ensures
        final(manager)@.len() == old(manager)@.len() + rule_declarations(entries@).len(),
        final(manager)@.subrange(0, old(manager)@.len() as int) == old(manager)@,
        forall|i: int|
            0 <= i < rule_declarations(entries@).len() ==> rule_made_from(
                #[trigger] final(manager)@[old(manager)@.len() + i],
                rule_declarations(entries@)[i],
            ),
{
    let ghost base = manager@;
    let mut i: usize = 0;
    while i < entries.len()
        invariant
            i <= entries@.len(),
            manager@.len() == base.len() + rule_declarations(entries@.take(i as int)).len(),
            manager@.subrange(0, base.len() as int) == base,
            forall|j: int|
                0 <= j < rule_declarations(entries@.take(i as int)).len() ==> rule_made_from(
                    #[trigger] manager@[base.len() + j],
                    rule_declarations(entries@.take(i as int))[j],
                ),
        decreases entries@.len() - i,
    {
        let e = &entries[i];
        let ghost before = rule_declarations(entries@.take(i as int));
        assert(entries@.take(i + 1).drop_last() =~= entries@.take(i as int));
        assert(entries@.take(i + 1).last() == *e);
        if let Some(f) = &e.rule {
            let name = match &e.name {
                Some(n) => n.clone(),
                None => String::from_str("unnamed"),
            };
            let matcher = WindowRuleMatcher { app_id: copy_text(&f.app_id), title: copy_text(&f.title) };
            let mut action = WindowRuleAction::default();
            action.open_floating = f.floating;
            action.open_on_workspace = f.workspace;
            action.open_fullscreen = f.fullscreen;
            let ghost m0 = manager@;
            manager.add_rule(WindowRule::new(name, matcher, action));
            proof {
                assert(manager@.subrange(0, base.len() as int) =~= m0.subrange(0, base.len() as int));
                assert forall|j: int|
                    0 <= j < rule_declarations(entries@.take(i + 1)).len() implies rule_made_from(
                        #[trigger] manager@[base.len() + j],
                        rule_declarations(entries@.take(i + 1))[j],
                    ) by {
                    if j < before.len() {
                        assert(manager@[base.len() + j] == m0[base.len() + j]);
                    }
                }
            }
        }
        i = i + 1;
    }
    assert(entries@.take(entries@.len() as int) =~= entries@);
}

} // verus!
