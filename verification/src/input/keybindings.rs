use vstd::prelude::*;
use std::collections::HashMap;

use crate::dispatch::outcome::dispatch_outcome;
use crate::dispatch::{Command, DispatchError, DispatchResult, Dispatcher};
use crate::state::State;
use crate::text::{
    chars_of, parse_unsigned, parse_unsigned_chars, str_equal, string_from_chars, to_lowercase,
    trim_chars, trimmed, text_lowercase,
};

verus! {

broadcast use vstd::std_specs::hash::group_hash_axioms;

/// Modifiers held down during a key event.
#[derive(Debug, Clone, Copy, PartialEq, Eq, Hash, Structural)]
pub struct Modifiers {
    pub ctrl: bool,
    pub alt: bool,
    pub shift: bool,
    /// Super / Mod4.
    pub logo: bool,
}

impl Modifiers {
    /// No modifier held.
    pub fn none() -> (m: Modifiers)
        ensures
            m == (Modifiers { ctrl: false, alt: false, shift: false, logo: false }),
    {
        Modifiers { ctrl: false, alt: false, shift: false, logo: false }
    }

    /// Super alone.
    pub fn super_key() -> (m: Modifiers)
        ensures
            m == (Modifiers { ctrl: false, alt: false, shift: false, logo: true }),
    {
        Modifiers { ctrl: false, alt: false, shift: false, logo: true }
    }

    /// Super with Shift.
    pub fn super_shift() -> (m: Modifiers)
        ensures
            m == (Modifiers { ctrl: false, alt: false, shift: true, logo: true }),
    {
        Modifiers { ctrl: false, alt: false, shift: true, logo: true }
    }

    /// Whether the same modifiers are held in both.
    pub fn matches(&self, other: &Self) -> (r: bool)
        ensures
            r == (*self == *other),
    {
        self.ctrl == other.ctrl && self.alt == other.alt && self.shift == other.shift && self.logo
            == other.logo
    }
}

impl Default for Modifiers {
    fn default() -> (m: Modifiers)
        ensures
            m == (Modifiers { ctrl: false, alt: false, shift: false, logo: false }),
    {
        Modifiers::none()
    }
}

/// A combination of modifiers and a keysym, the trigger of a keybinding.
#[derive(Debug, Clone, Copy, PartialEq, Eq, Hash, Structural)]
pub struct KeyPattern {
    pub modifiers: Modifiers,
    /// X11/XKB keysym value (e.g. 0x0071 for 'q', 0xff0d for Enter).
    pub keysym: u32,
}

impl KeyPattern {
    pub fn new(modifiers: Modifiers, keysym: u32) -> (p: KeyPattern)
        ensures
            p == (KeyPattern { modifiers, keysym }),
    {
        KeyPattern { modifiers, keysym }
    }
}

/// What a keybinding does.
#[derive(Debug, PartialEq)]
pub enum KeyAction {
    /// Dispatch a compositor command.
    Dispatch(Command),
    /// Start an external program (e.g. "kitty", "rofi").
    Spawn(String),
}

impl Clone for KeyAction {
    fn clone(&self) -> (r: KeyAction)
        ensures
            r == *self,
    {
        match self {
            KeyAction::Dispatch(c) => KeyAction::Dispatch(c.clone()),
            KeyAction::Spawn(s) => KeyAction::Spawn(s.clone()),
        }
    }
}

/// The command that carries out an action: its own, or `spawn` of its program.
pub open spec fn action_command(a: KeyAction) -> Command {
    match a {
        KeyAction::Dispatch(c) => c,
        KeyAction::Spawn(s) => Command::Spawn { command: s },
    }
}

/// The modifiers as a number below 16.
pub open spec fn modifier_bits(m: Modifiers) -> int {
    (if m.ctrl { 1int } else { 0 }) + (if m.alt { 2int } else { 0 }) + (if m.shift { 4int } else { 0 })
        + (if m.logo { 8int } else { 0 })
}

/// The number a pattern is stored under: its modifier bits above its 32-bit keysym.
pub open spec fn pattern_code(p: KeyPattern) -> u64 {
    (modifier_bits(p.modifiers) * 0x1_0000_0000 + p.keysym) as u64
}

proof fn lemma_pattern_code_injective(p: KeyPattern, q: KeyPattern)
    requires
        pattern_code(p) == pattern_code(q),
    ensures
        p == q,
{
    let bp = modifier_bits(p.modifiers);
    let bq = modifier_bits(q.modifiers);
    assert(bp * 0x1_0000_0000 + p.keysym == bq * 0x1_0000_0000 + q.keysym);
    assert(bp == bq && p.keysym == q.keysym) by (nonlinear_arith)
        requires
            bp * 0x1_0000_0000 + p.keysym == bq * 0x1_0000_0000 + q.keysym,
            0 <= p.keysym < 0x1_0000_0000,
            0 <= q.keysym < 0x1_0000_0000,
            0 <= bp < 16,
            0 <= bq < 16,
    ;
}

fn pattern_key(p: KeyPattern) -> (k: u64)
    ensures
        k == pattern_code(p),
{
    let mut bits: u64 = 0;
    if p.modifiers.ctrl {
        bits = bits + 1;
    }
    if p.modifiers.alt {
        bits = bits + 2;
    }
    if p.modifiers.shift {
        bits = bits + 4;
    }
    if p.modifiers.logo {
        bits = bits + 8;
    }
    bits * 0x1_0000_0000 + p.keysym as u64
}

/// The action found for a key press: the binding of the exact pattern, else (for an ASCII
/// letter) the binding of the same letter in the other case.
pub open spec fn lookup_binding(m: Map<KeyPattern, KeyAction>, modifiers: Modifiers, keysym: u32) -> Option<KeyAction> {
    let exact = KeyPattern { modifiers, keysym };
    if m.contains_key(exact) {
        Some(m[exact])
    } else if 0x41 <= keysym <= 0x5a && m.contains_key(
        KeyPattern { modifiers, keysym: (keysym + 0x20) as u32 },
    ) {
        Some(m[KeyPattern { modifiers, keysym: (keysym + 0x20) as u32 }])
    } else if 0x61 <= keysym <= 0x7a && m.contains_key(
        KeyPattern { modifiers, keysym: (keysym - 0x20) as u32 },
    ) {
        Some(m[KeyPattern { modifiers, keysym: (keysym - 0x20) as u32 }])
    } else {
        None
    }
}

/// Registry mapping keyboard shortcuts to actions.
pub struct Keybindings {
    bindings: HashMap<u64, KeyAction>,
}

impl View for Keybindings {
    type V = Map<KeyPattern, KeyAction>;

    closed spec fn view(&self) -> Map<KeyPattern, KeyAction> {
        Map::new(
            |p: KeyPattern| self.bindings@.contains_key(pattern_code(p)),
            |p: KeyPattern| self.bindings@[pattern_code(p)],
        )
    }
}

impl Keybindings {
    pub fn new() -> (k: Keybindings)
        ensures
            k@ == Map::<KeyPattern, KeyAction>::empty(),
    {
        let k = Keybindings { bindings: HashMap::new() };
        assert(k@ =~= Map::<KeyPattern, KeyAction>::empty());
        k
    }

    /// Binds `pattern` to `action`, replacing an earlier binding of it.
    pub fn bind(&mut self, pattern: KeyPattern, action: KeyAction)
        ensures
            final(self)@ == old(self)@.insert(pattern, action),
    {
        let key = pattern_key(pattern);
        self.bindings.insert(key, action);
        proof {
            assert forall|p: KeyPattern| #[trigger] self@.contains_key(p) == old(self)@.insert(
                pattern,
                action,
            ).contains_key(p) by {
                if pattern_code(p) == key {
                    lemma_pattern_code_injective(p, pattern);
                }
            }
            assert forall|p: KeyPattern| #[trigger] self@.contains_key(p) implies self@[p] == old(
                self,
            )@.insert(pattern, action)[p] by {
                if pattern_code(p) == key {
                    lemma_pattern_code_injective(p, pattern);
                }
            }
            assert(self@ =~= old(self)@.insert(pattern, action));
        }
    }

    /// Removes the binding of `pattern`; returns whether there was one.
    pub fn unbind(&mut self, pattern: &KeyPattern) -> (r: bool)
        ensures
            r == old(self)@.contains_key(*pattern),
            final(self)@ == old(self)@.remove(*pattern),
    {
        let key = pattern_key(*pattern);
        let removed = self.bindings.remove(&key);
        proof {
            assert forall|p: KeyPattern| #[trigger] self@.contains_key(p) == old(self)@.remove(
                *pattern,
            ).contains_key(p) by {
                if pattern_code(p) == key {
                    lemma_pattern_code_injective(p, *pattern);
                }
            }
            assert(self@ =~= old(self)@.remove(*pattern));
        }
        removed.is_some()
    }

    /// Removes every binding.
    pub fn clear(&mut self)
        ensures
            final(self)@ == Map::<KeyPattern, KeyAction>::empty(),
    {
        self.bindings.clear();
        assert(self@ =~= Map::<KeyPattern, KeyAction>::empty());
    }

    fn find(&self, pattern: KeyPattern) -> (r: Option<&KeyAction>)
        ensures
            match r {
                Some(a) => self@.contains_key(pattern) && self@[pattern] == *a,
                None => !self@.contains_key(pattern),
            },
    {
        let key = pattern_key(pattern);
        self.bindings.get(&key)
    }

    /// The action bound to a key press, trying the other case of an ASCII letter when the
    /// exact pattern is unbound.
    pub fn match_action(&self, modifiers: Modifiers, keysym: u32) -> (r: Option<&KeyAction>)
        ensures
            match r {
                Some(a) => lookup_binding(self@, modifiers, keysym) == Some(*a),
                None => lookup_binding(self@, modifiers, keysym) is None,
            },
    {
        if let Some(action) = self.find(KeyPattern::new(modifiers, keysym)) {
            return Some(action);
        }
        if 0x41 <= keysym && keysym <= 0x5a {
            if let Some(action) = self.find(KeyPattern::new(modifiers, keysym + 0x20)) {
                return Some(action);
            }
        }
        if 0x61 <= keysym && keysym <= 0x7a {
            if let Some(action) = self.find(KeyPattern::new(modifiers, keysym - 0x20)) {
                return Some(action);
            }
        }
        None
    }

    /// Carries out `action` through the dispatcher; a program to start is queued as a
    /// `spawn` command.
    pub fn execute_action(&self, action: &KeyAction, dispatcher: &mut Dispatcher, state: &mut State) -> (r: Result<DispatchResult, DispatchError>)
        requires
            old(state).wf(),
        ensures
            dispatch_outcome(
                *old(dispatcher),
                *final(dispatcher),
                *old(state),
                *final(state),
                action_command(*action),
                r,
            ),
            final(state).wf(),
    {
        match action {
            KeyAction::Dispatch(cmd) => dispatcher.dispatch(state, cmd.clone()),
            KeyAction::Spawn(cmd) => dispatcher.dispatch(state, Command::Spawn { command: cmd.clone() }),
        }
    }
}

impl Default for Keybindings {
    fn default() -> (k: Keybindings)
        ensures
            k@ == Map::<KeyPattern, KeyAction>::empty(),
    {
        Keybindings::new()
    }
}

/// The keysym of a named key, by its lowercase name.
pub open spec fn named_keysym(s: Seq<char>) -> Option<u32> {
    if s == "return"@ || s == "enter"@ {
        Some(0xff0d)
    } else if s == "escape"@ {
        Some(0xff1b)
    } else if s == "tab"@ {
        Some(0xff09)
    } else if s == "space"@ {
        Some(0x0020)
    } else if s == "backspace"@ {
        Some(0xff08)
    } else if s == "delete"@ {
        Some(0xffff)
    } else if s == "insert"@ {
        Some(0xff63)
    } else if s == "home"@ {
        Some(0xff50)
    } else if s == "end"@ {
        Some(0xff57)
    } else if s == "page_up"@ || s == "prior"@ {
        Some(0xff55)
    } else if s == "page_down"@ || s == "next"@ {
        Some(0xff56)
    } else if s == "left"@ {
        Some(0xff51)
    } else if s == "up"@ {
        Some(0xff52)
    } else if s == "right"@ {
        Some(0xff53)
    } else if s == "down"@ {
        Some(0xff54)
    } else if s == "comma"@ {
        Some(0x002c)
    } else if s == "period"@ {
        Some(0x002e)
    } else if s == "slash"@ {
        Some(0x002f)
    } else if s == "semicolon"@ {
        Some(0x003b)
    } else if s == "apostrophe"@ {
        Some(0x0027)
    } else if s == "minus"@ {
        Some(0x002d)
    } else if s == "equal"@ {
        Some(0x003d)
    } else if s == "grave"@ {
        Some(0x0060)
    } else if s == "backslash"@ {
        Some(0x005c)
    } else if s == "bracketleft"@ {
        Some(0x005b)
    } else if s == "bracketright"@ {
        Some(0x005d)
    } else if s == "plus"@ {
        Some(0x002b)
    } else {
        None
    }
}

/// The keysym a lowercase key name denotes: a single letter or digit, a named key, or
/// `f1` to `f24`.
pub open spec fn keysym_of(s: Seq<char>) -> Option<u32> {
    if s.len() == 1 {
        let c = s[0];
        if 'a' <= c <= 'z' {
            Some((0x61 + (c as u32 - 'a' as u32)) as u32)
        } else if '0' <= c <= '9' {
            Some((0x30 + (c as u32 - '0' as u32)) as u32)
        } else {
            None
        }
    } else if named_keysym(s) is Some {
        named_keysym(s)
    } else if s.len() > 0 && s[0] == 'f' {
        match parse_unsigned(s.drop_first(), u32::MAX as nat) {
            Some(n) => if 1 <= n <= 24 {
                Some((0xffbe + n - 1) as u32)
            } else {
                None
            },
            None => None,
        }
    } else {
        None
    }
}

fn named_keysym_exec(name: &str) -> (r: Option<u32>)
    ensures
        r == named_keysym(name@),
{
    if str_equal(name, "return") || str_equal(name, "enter") {
        Some(0xff0d)
    } else if str_equal(name, "escape") {
        Some(0xff1b)
    } else if str_equal(name, "tab") {
        Some(0xff09)
    } else if str_equal(name, "space") {
        Some(0x0020)
    } else if str_equal(name, "backspace") {
        Some(0xff08)
    } else if str_equal(name, "delete") {
        Some(0xffff)
    } else if str_equal(name, "insert") {
        Some(0xff63)
    } else if str_equal(name, "home") {
        Some(0xff50)
    } else if str_equal(name, "end") {
        Some(0xff57)
    } else if str_equal(name, "page_up") || str_equal(name, "prior") {
        Some(0xff55)
    } else if str_equal(name, "page_down") || str_equal(name, "next") {
        Some(0xff56)
    } else if str_equal(name, "left") {
        Some(0xff51)
    } else if str_equal(name, "up") {
        Some(0xff52)
    } else if str_equal(name, "right") {
        Some(0xff53)
    } else if str_equal(name, "down") {
        Some(0xff54)
    } else if str_equal(name, "comma") {
        Some(0x002c)
    } else if str_equal(name, "period") {
        Some(0x002e)
    } else if str_equal(name, "slash") {
        Some(0x002f)
    } else if str_equal(name, "semicolon") {
        Some(0x003b)
    } else if str_equal(name, "apostrophe") {
        Some(0x0027)
    } else if str_equal(name, "minus") {
        Some(0x002d)
    } else if str_equal(name, "equal") {
        Some(0x003d)
    } else if str_equal(name, "grave") {
        Some(0x0060)
    } else if str_equal(name, "backslash") {
        Some(0x005c)
    } else if str_equal(name, "bracketleft") {
        Some(0x005b)
    } else if str_equal(name, "bracketright") {
        Some(0x005d)
    } else if str_equal(name, "plus") {
        Some(0x002b)
    } else {
        None
    }
}

/// The keysym a key name that is already trimmed and lowercased denotes.
pub fn keysym_from_lowercase(name: &str) -> (r: Option<u32>)
    ensures
        r == keysym_of(name@),
{
    let chars = chars_of(name);
    if chars.len() == 1 {
        let c = chars[0];
        return if 'a' <= c && c <= 'z' {
            Some(0x61 + (c as u32 - 'a' as u32))
        } else if '0' <= c && c <= '9' {
            Some(0x30 + (c as u32 - '0' as u32))
        } else {
            None
        };
    }
    let named = named_keysym_exec(name);
    if named.is_some() {
        return named;
    }
    if chars.len() > 0 && chars[0] == 'f' {
        let mut rest: Vec<char> = Vec::new();
        let mut i: usize = 1;
        while i < chars.len()
            invariant
                1 <= i <= chars@.len(),
                chars@ == name@,
                rest@ == chars@.subrange(1, i as int),
            decreases chars@.len() - i,
        {
            rest.push(chars[i]);
            assert(chars@.subrange(1, i + 1) =~= chars@.subrange(1, i as int).push(chars@[i as int]));
            i = i + 1;
        }
        assert(rest@ =~= name@.drop_first());
        return match parse_unsigned_chars(&rest, 0xffff_ffff) {
            Some(n) => if 1 <= n && n <= 24 {
                Some((0xffbe + n - 1) as u32)
            } else {
                None
            },
            None => None,
        };
    }
    None
}

/// Maps a key name to an XKB keysym (the subset used in keybindings): single ASCII letters
/// and digits, named keys (Return, Escape, Tab, Space, BackSpace, Delete, Insert, Home, End,
/// Page_Up/Prior, Page_Down/Next, arrows), punctuation keys (comma, period, slash,
/// semicolon, apostrophe, minus, equal, grave, backslash, bracketleft, bracketright, plus)
/// and F1..=F24. The name is trimmed and lowercased first.
pub fn keysym_from_name(name: &str) -> (r: Option<u32>)
    ensures
        r == keysym_of(text_lowercase(trimmed(name@))),
{
    let chars = chars_of(name);
    let t = trim_chars(&chars);
    let trimmed_name = string_from_chars(&t);
    let lower = to_lowercase(trimmed_name.as_str());
    keysym_from_lowercase(lower.as_str())
}

/// The virtual terminal a key event asks to switch to.
pub open spec fn vt_switch(modifiers: Modifiers, sym: u32, raw_sym: u32, key_code: u32) -> Option<i32> {
    if 0x1008_fe01 <= sym <= 0x1008_fe0c {
        Some((sym - 0x1008_fe01 + 1) as i32)
    } else if 0x1008_fe01 <= raw_sym <= 0x1008_fe0c {
        Some((raw_sym - 0x1008_fe01 + 1) as i32)
    } else if modifiers.ctrl && modifiers.alt {
        if 0xffbe <= sym <= 0xffc9 {
            Some((sym - 0xffbe + 1) as i32)
        } else if 0xffbe <= raw_sym <= 0xffc9 {
            Some((raw_sym - 0xffbe + 1) as i32)
        } else if 59 <= key_code <= 68 {
            Some((key_code - 59 + 1) as i32)
        } else if key_code == 87 {
            Some(11)
        } else if key_code == 88 {
            Some(12)
        } else {
            None
        }
    } else {
        None
    }
}

/// Parses a virtual terminal switch request from a key event:
/// 1. XKB XF86Switch_VT_1..12 keysyms (0x1008FE01..=0x1008FE0C), translated or raw;
/// 2. Ctrl + Alt + F1..F12 keysyms (0xffbe..=0xffc9), translated or raw;
/// 3. Ctrl + Alt + raw Linux evdev keycodes (59..=68 for F1-F10, 87 for F11, 88 for F12).
pub fn parse_vt_switch(modifiers: Modifiers, sym: u32, raw_sym: u32, key_code: u32) -> (r: Option<i32>)
    ensures
        r == vt_switch(modifiers, sym, raw_sym, key_code),
{
    if 0x1008_fe01 <= sym && sym <= 0x1008_fe0c {
        return Some((sym - 0x1008_fe01 + 1) as i32);
    }
    if 0x1008_fe01 <= raw_sym && raw_sym <= 0x1008_fe0c {
        return Some((raw_sym - 0x1008_fe01 + 1) as i32);
    }
    if modifiers.ctrl && modifiers.alt {
        if 0xffbe <= sym && sym <= 0xffc9 {
            return Some((sym - 0xffbe + 1) as i32);
        }
        if 0xffbe <= raw_sym && raw_sym <= 0xffc9 {
            return Some((raw_sym - 0xffbe + 1) as i32);
        }
        if 59 <= key_code && key_code <= 68 {
            return Some((key_code - 59 + 1) as i32);
        }
        if key_code == 87 {
            return Some(11);
        }
        if key_code == 88 {
            return Some(12);
        }
    }
    None
}

/// What a key event leads to.
#[derive(Debug)]
pub enum KeyResponse {
    /// Switch to this virtual terminal.
    SwitchVt(i32),
    /// Carry out this bound action (the key is not passed on).
    Run(KeyAction),
    /// Pass the key on to the focused client.
    Forward,
}

/// The response to a key event with `bindings` in effect: on a press, a virtual terminal
/// switch (where the session can switch terminals) comes first, then the binding of the
/// translated keysym, then that of the raw keysym; releases and unbound presses are passed
/// on.
pub open spec fn key_response_of(
    bindings: Map<KeyPattern, KeyAction>,
    modifiers: Modifiers,
    sym: u32,
    raw_sym: u32,
    key_code: u32,
    pressed: bool,
    vt_switching: bool,
) -> KeyResponse {
    if pressed && vt_switching && vt_switch(modifiers, sym, raw_sym, key_code) is Some {
        KeyResponse::SwitchVt(vt_switch(modifiers, sym, raw_sym, key_code)->0)
    } else if !pressed {
        KeyResponse::Forward
    } else {
        match lookup_binding(bindings, modifiers, sym) {
            Some(a) => KeyResponse::Run(a),
            None => match lookup_binding(bindings, modifiers, raw_sym) {
                Some(a) => KeyResponse::Run(a),
                None => KeyResponse::Forward,
            },
        }
    }
}

impl Keybindings {
    /// Decides what a key event does (see `key_response_of`).
    pub fn key_response(
        &self,
        modifiers: Modifiers,
        sym: u32,
        raw_sym: u32,
        key_code: u32,
        pressed: bool,
        vt_switching: bool,
    ) -> (r: KeyResponse)
        ensures
            r == key_response_of(self@, modifiers, sym, raw_sym, key_code, pressed, vt_switching),
    {
        if pressed && vt_switching {
            if let Some(vt) = parse_vt_switch(modifiers, sym, raw_sym, key_code) {
                return KeyResponse::SwitchVt(vt);
            }
        }
        if !pressed {
            return KeyResponse::Forward;
        }
        match self.match_action(modifiers, sym) {
            Some(a) => KeyResponse::Run(a.clone()),
            None => match self.match_action(modifiers, raw_sym) {
                Some(a) => KeyResponse::Run(a.clone()),
                None => KeyResponse::Forward,
            },
        }
    }
}

} // verus!
