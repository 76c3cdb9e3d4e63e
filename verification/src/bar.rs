use vstd::prelude::*;

use crate::state::keys::{key_count, sorted_keys, strictly_increasing};
use crate::state::State;
use crate::text::{
    chars_of, decimal, decimal_string, push_str, string_from_chars, strip_trailing,
    trim_end_chars, white_space,
};

verus! {

/// The label of workspace `id` in the bar: bracketed when it is the active one.
pub open spec fn workspace_label(id: u32, active: u32) -> Seq<char> {
    if id == active {
        "["@ + decimal(id as nat) + "] "@
    } else {
        " "@ + decimal(id as nat) + "  "@
    }
}

/// The labels of `ids`, in order.
pub open spec fn workspace_labels(ids: Seq<u32>, active: u32) -> Seq<char>
    decreases ids.len(),
{
    if ids.len() == 0 {
        Seq::empty()
    } else {
        workspace_labels(ids.drop_last(), active) + workspace_label(ids.last(), active)
    }
}

/// What the bar shows for the active window: its title, else its app id, else `~`.
pub open spec fn active_title(s: State) -> Seq<char> {
    let ws = s.workspaces@[s.active_workspace_id];
    match ws.focused_window {
        Some(id) => if s.windows@.contains_key(id.0) {
            let w = s.windows@[id.0];
            match w.title {
                Some(t) => t@,
                None => match w.app_id {
                    Some(a) => a@,
                    None => "~"@,
                },
            }
        } else {
            "~"@
        },
        None => "~"@,
    }
}

/// The status line for state `s`, the workspaces listed in the order `ids`, at time `clock`.
pub open spec fn bar_text(s: State, ids: Seq<u32>, clock: Seq<char>) -> Seq<char> {
    "\r\x1b[2K\x1b[1;36mtruss\x1b[0m | \x1b[1;32m"@ + strip_trailing(
        workspace_labels(ids, s.active_workspace_id),
        white_space(),
    ) + "\x1b[0m | \x1b[1;33mlayout:\x1b[0m "@ + s.workspaces@[s.active_workspace_id].layout@
        + " | \x1b[1;34mwin:\x1b[0m "@ + decimal(s.windows@.len()) + " | \x1b[1;37m"@
        + active_title(s) + "\x1b[0m | \x1b[1;35m"@ + clock + "\x1b[0m"@
}

/// The status bar line for `state`: the workspaces in increasing order of id (the active
/// one bracketed), the active layout, the number of windows, the active window's title, and
/// the time `clock`.
pub fn bar_line(state: &State, clock: &str) -> (line: String)
    requires
        state.workspaces@.contains_key(state.active_workspace_id),
    ensures
        exists|ids: Seq<u32>|
            #![trigger bar_text(*state, ids, clock@)]
            strictly_increasing(ids) && (forall|k: u32|
                ids.contains(k) <==> state.workspaces@.contains_key(k)) && line@ == bar_text(
                *state,
                ids,
                clock@,
            ),
{
    let ids = sorted_keys(&state.workspaces);
    let active = state.active_workspace_id;
    let mut labels = String::new();
    let mut i: usize = 0;
    while i < ids.len()
        invariant
            i <= ids@.len(),
            labels@ == workspace_labels(ids@.take(i as int), active),
        decreases ids@.len() - i,
    {
        let id = ids[i];
        let n = decimal_string(id as u64);
        if id == active {
            push_str(&mut labels, "[");
            push_str(&mut labels, n.as_str());
            push_str(&mut labels, "] ");
        } else {
            push_str(&mut labels, " ");
            push_str(&mut labels, n.as_str());
            push_str(&mut labels, "  ");
        }
        proof {
            assert(ids@.take(i + 1).drop_last() =~= ids@.take(i as int));
            assert(labels@ =~= workspace_labels(ids@.take(i + 1), active));
        }
        i = i + 1;
    }
    assert(ids@.take(ids@.len() as int) =~= ids@);
    let label_chars = chars_of(labels.as_str());
    let trimmed_labels = trim_end_chars(&label_chars);
    let ws = state.active_workspace();
    let title: &str = match ws.focused_window {
        Some(id) => match state.windows.get(&id.0) {
            Some(w) => match &w.title {
                Some(t) => t.as_str(),
                None => match &w.app_id {
                    Some(a) => a.as_str(),
                    None => "~",
                },
            },
            None => "~",
        },
        None => "~",
    };
    let count = decimal_string(key_count(&state.windows) as u64);
    let mut line = String::from_str("\r\x1b[2K\x1b[1;36mtruss\x1b[0m | \x1b[1;32m");
    let ws_text = string_from_chars(&trimmed_labels);
    push_str(&mut line, ws_text.as_str());
    push_str(&mut line, "\x1b[0m | \x1b[1;33mlayout:\x1b[0m ");
    push_str(&mut line, ws.layout.as_str());
    push_str(&mut line, " | \x1b[1;34mwin:\x1b[0m ");
    push_str(&mut line, count.as_str());
    push_str(&mut line, " | \x1b[1;37m");
    push_str(&mut line, title);
    push_str(&mut line, "\x1b[0m | \x1b[1;35m");
    push_str(&mut line, clock);
    push_str(&mut line, "\x1b[0m");
    assert(line@ == bar_text(*state, ids@, clock@));
    line
}

/// A clock field as two digits (`7` as `07`).
pub open spec fn two_digits(n: nat) -> Seq<char> {
    if n < 10 {
        "0"@ + decimal(n)
    } else {
        decimal(n)
    }
}

/// The time of day as `HH:MM:SS`.
pub open spec fn clock_of(hours: nat, minutes: nat, seconds: nat) -> Seq<char> {
    two_digits(hours) + ":"@ + two_digits(minutes) + ":"@ + two_digits(seconds)
}

fn push_two_digits(s: &mut String, n: u32)
    requires
        n < 100,
    ensures
        final(s)@ == old(s)@ + two_digits(n as nat),
{
    if n < 10 {
        push_str(s, "0");
    }
    let d = decimal_string(n as u64);
    push_str(s, d.as_str());
}

/// The clock the bar shows for a local time of day (`localtime` gives hours below 24,
/// minutes below 60 and seconds below 61).
pub fn clock_text(hours: u32, minutes: u32, seconds: u32) -> (r: String)
    requires
        hours < 100,
        minutes < 100,
        seconds < 100,
    ensures
        r@ == clock_of(hours as nat, minutes as nat, seconds as nat),
{
    let mut r = String::new();
    push_two_digits(&mut r, hours);
    push_str(&mut r, ":");
    push_two_digits(&mut r, minutes);
    push_str(&mut r, ":");
    push_two_digits(&mut r, seconds);
    proof {
        assert(r@ =~= clock_of(hours as nat, minutes as nat, seconds as nat));
    }
    r
}

/// What the bar shows when the local time cannot be had: the seconds since the epoch.
pub fn epoch_text(secs: u64) -> (r: String)
    ensures
        r@ == decimal(secs as nat) + " epoch"@,
{
    let mut r = decimal_string(secs);
    push_str(&mut r, " epoch");
    r
}

} // verus!
