use vstd::prelude::*;

use crate::text::{chars_of, split_chars, split_on, str_equal, string_from_chars, trim_chars, trimmed};

verus! {

/// A path component that names something: not empty and not `.`.
pub open spec fn is_named_component(c: Seq<char>) -> bool {
    c.len() > 0 && c != "."@
}

/// The last named component of `parts`.
pub open spec fn last_named(parts: Seq<Seq<char>>) -> Option<Seq<char>>
    decreases parts.len(),
{
    if parts.len() == 0 {
        None
    } else if is_named_component(parts.last()) {
        Some(parts.last())
    } else {
        last_named(parts.drop_last())
    }
}

/// `Path::file_name`: the final component of a `/`-separated path, unless there is none
/// or it is `..`.
pub open spec fn file_name(path: Seq<char>) -> Option<Seq<char>> {
    match last_named(split_on(path, '/')) {
        Some(c) => if c == ".."@ {
            None
        } else {
            Some(c)
        },
        None => None,
    }
}

/// Whether a shell path names a shell that refuses interactive use (`nologin`, `false`).
pub fn looks_like_noninteractive_shell(path: &str) -> (r: bool)
    ensures
        r == (file_name(path@) == Some("nologin"@) || file_name(path@) == Some("false"@)),
{
    let chars = chars_of(path);
    let parts = split_chars(&chars, '/');
    let ghost ps = split_on(path@, '/');
    let mut i: usize = parts.len();
    assert(ps.take(ps.len() as int) =~= ps);
    while i > 0
        invariant
            i <= parts@.len(),
            parts@.len() == ps.len(),
            ps == split_on(path@, '/'),
            forall|j: int| 0 <= j < parts@.len() ==> #[trigger] parts@[j]@ == ps[j],
            last_named(ps) == last_named(ps.take(i as int)),
        decreases i,
    {
        let part = &parts[i - 1];
        let ghost prefix = ps.take(i as int);
        assert(prefix.last() == part@);
        assert(prefix.drop_last() =~= ps.take(i - 1));
        let name = string_from_chars(part);
        let n = name.as_str();
        if part.len() > 0 && !str_equal(n, ".") {
            proof {
                reveal_strlit("..");
                reveal_strlit("nologin");
                reveal_strlit("false");
            }
            return str_equal(n, "nologin") || str_equal(n, "false");
        }
        i = i - 1;
    }
    assert(ps.take(0) =~= Seq::<Seq<char>>::empty());
    false
}

/// Whether a file's metadata marks it as an executable regular file.
pub open spec fn executable_mode(is_file: bool, mode: u32) -> bool {
    is_file && (mode & 0o111) != 0
}

/// Whether a shell path is usable, from its metadata: a regular file with an execute bit.
pub fn shell_path_is_executable(is_file: bool, mode: u32) -> (r: bool)
    ensures
        r == executable_mode(is_file, mode),
{
    is_file && (mode & 0o111) != 0
}

/// The lines of `s` (`str::lines`): split at `\n`, a `\r` just before a `\n` dropped, and no
/// empty line after a final `\n`.
pub open spec fn lines_of(s: Seq<char>) -> Seq<Seq<char>> {
    let pieces = split_on(s, '\n');
    let ended = pieces.drop_last().map_values(
        |l: Seq<char>| if l.len() > 0 && l.last() == '\r' { l.drop_last() } else { l },
    );
    if s.len() == 0 {
        Seq::empty()
    } else if s.last() == '\n' {
        ended
    } else {
        ended.push(pieces.last())
    }
}

/// The first line of `lines` from position `i` on that starts with `prefix`.
pub open spec fn first_with_prefix(lines: Seq<Seq<char>>, prefix: Seq<char>, i: int) -> Option<Seq<char>>
    decreases lines.len() - i,
{
    if i < 0 || i >= lines.len() {
        None
    } else if prefix.is_prefix_of(lines[i]) {
        Some(lines[i])
    } else {
        first_with_prefix(lines, prefix, i + 1)
    }
}

/// The login shell `/etc/passwd` text gives `user`: the seventh `:`-separated field of the
/// first line starting with `user:`, trimmed.
pub open spec fn passwd_shell_field(content: Seq<char>, user: Seq<char>) -> Option<Seq<char>> {
    match first_with_prefix(lines_of(content), user + ":"@, 0) {
        Some(line) => {
            let fields = split_on(line, ':');
            if fields.len() > 6 {
                Some(trimmed(fields[6]))
            } else {
                None
            }
        },
        None => None,
    }
}

fn starts_with(v: &Vec<char>, prefix: &Vec<char>) -> (r: bool)
    ensures
        r == prefix@.is_prefix_of(v@),
{
    if prefix.len() > v.len() {
        return false;
    }
    let mut i: usize = 0;
    while i < prefix.len()
        invariant
            i <= prefix@.len() <= v@.len(),
            forall|j: int| 0 <= j < i ==> prefix@[j] == v@[j],
        decreases prefix@.len() - i,
    {
        if prefix[i] != v[i] {
            return false;
        }
        i = i + 1;
    }
    assert(prefix@ =~= v@.subrange(0, prefix@.len() as int));
    true
}

/// The login shell of `user` in the text of `/etc/passwd` (see `passwd_shell_field`).
pub fn passwd_shell(content: &str, user: &str) -> (r: Option<String>)
    ensures
        match r {
            Some(s) => passwd_shell_field(content@, user@) == Some(s@),
            None => passwd_shell_field(content@, user@) is None,
        },
{
    let chars = chars_of(content);
    let mut prefix = chars_of(user);
    prefix.push(':');
    proof {
        reveal_strlit(":");
        assert(prefix@ =~= user@ + ":"@);
    }
    let pieces = split_chars(&chars, '\n');
    let ghost ps = split_on(content@, '\n');
    let ghost ls = lines_of(content@);
    proof {
        crate::text::lemma_split_on_nonempty(content@, '\n');
    }
    let ends_with_newline = chars.len() > 0 && chars[chars.len() - 1] == '\n';
    let count: usize = if chars.len() == 0 {
        0
    } else if ends_with_newline {
        pieces.len() - 1
    } else {
        pieces.len()
    };
    assert(count == ls.len());
    let mut i: usize = 0;
    while i < count
        invariant
            count == ls.len(),
            ls == lines_of(content@),
            ps == split_on(content@, '\n'),
            chars@ == content@,
            prefix@ == user@ + ":"@,
            pieces@.len() == ps.len(),
            ps.len() >= 1,
            forall|j: int| 0 <= j < pieces@.len() ==> #[trigger] pieces@[j]@ == ps[j],
            ends_with_newline == (content@.len() > 0 && content@.last() == '\n'),
            i <= count,
            first_with_prefix(ls, prefix@, 0) == first_with_prefix(ls, prefix@, i as int),
        decreases count - i,
    {
        let piece = &pieces[i];
        let terminated = i + 1 < pieces.len();
        let mut line: Vec<char> = Vec::new();
        let mut k: usize = 0;
        let strip = terminated && piece.len() > 0 && piece[piece.len() - 1] == '\r';
        let keep: usize = if strip { piece.len() - 1 } else { piece.len() };
        while k < keep
            invariant
                keep <= piece@.len(),
                k <= keep,
                line@ == piece@.subrange(0, k as int),
            decreases keep - k,
        {
            line.push(piece[k]);
            assert(line@ =~= piece@.subrange(0, k + 1));
            k = k + 1;
        }
        assert(line@ == ls[i as int]) by {
            assert(piece@ == ps[i as int]);
            if strip {
                assert(line@ =~= piece@.drop_last());
            } else {
                assert(line@ =~= piece@);
            }
        }
        if starts_with(&line, &prefix) {
            let fields = split_chars(&line, ':');
            if fields.len() > 6 {
                let t = trim_chars(&fields[6]);
                return Some(string_from_chars(&t));
            }
            return None;
        }
        i = i + 1;
    }
    None
}

} // verus!
