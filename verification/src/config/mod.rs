use vstd::prelude::*;

pub mod entries;
pub mod watch;

pub use entries::{
    apply_keybinding_entries, apply_rule_entries, parse_modifiers, KeybindEntry, RuleEntry,
    RuleFields,
};

use crate::cli::texts;
use crate::text::{chars_of, push_str, str_equal, trim_chars, trimmed};

verus! {

/// Where the configuration is read from.
#[derive(Debug, PartialEq, Eq)]
pub enum ConfigSource {
    /// A configuration file, by path.
    File(String),
    /// The configuration built into the compositor.
    Embedded,
}

/// `base` joined with the relative component `comp`, as `Path::join` does: a separator is
/// put between them unless `base` already ends with one.
pub open spec fn joined(base: Seq<char>, comp: Seq<char>) -> Seq<char> {
    if base.len() > 0 && base.last() == '/' {
        base + comp
    } else {
        base + "/"@ + comp
    }
}

/// `Path::join` of a relative component onto `base`.
pub fn path_join(base: &str, comp: &str) -> (r: String)
    ensures
        r@ == joined(base@, comp@),
{
    let chars = chars_of(base);
    let mut r = String::from_str(base);
    if !(chars.len() > 0 && chars[chars.len() - 1] == '/') {
        push_str(&mut r, "/");
    }
    push_str(&mut r, comp);
    r
}

/// The path below the XDG configuration directory, or below the home directory.
pub open spec fn user_config_path(xdg: Option<Seq<char>>, home: Option<Seq<char>>) -> Option<Seq<char>> {
    if xdg is Some && xdg->0.len() > 0 {
        Some(joined(joined(xdg->0, "truss"@), "config.lua"@))
    } else if home is Some && home->0.len() > 0 {
        Some(joined(joined(joined(home->0, ".config"@), "truss"@), "config.lua"@))
    } else {
        None
    }
}

pub open spec fn opt_str(o: Option<&str>) -> Option<Seq<char>> {
    match o {
        Some(s) => Some(s@),
        None => None,
    }
}

/// The user configuration path `truss init-config` writes to, from the values of
/// `XDG_CONFIG_HOME` and `HOME`: `$XDG_CONFIG_HOME/truss/config.lua`, else
/// `~/.config/truss/config.lua`; unset and empty values are skipped.
pub fn default_user_config_path_from(xdg: Option<&str>, home: Option<&str>) -> (r: Option<String>)
    ensures
        match r {
            Some(p) => user_config_path(opt_str(xdg), opt_str(home)) == Some(p@),
            None => user_config_path(opt_str(xdg), opt_str(home)) is None,
        },
{
    if let Some(x) = xdg {
        if x.unicode_len() > 0 {
            let a = path_join(x, "truss");
            return Some(path_join(a.as_str(), "config.lua"));
        }
    }
    if let Some(h) = home {
        if h.unicode_len() > 0 {
            let a = path_join(h, ".config");
            let b = path_join(a.as_str(), "truss");
            return Some(path_join(b.as_str(), "config.lua"));
        }
    }
    None
}

/// The system-wide configuration file, tried last.
pub open spec fn system_config_path() -> Seq<char> {
    "/etc/xdg/truss/config.lua"@
}

/// The configuration files to try, in priority order: below `XDG_CONFIG_HOME`, below the
/// home directory, then the system-wide one.
pub open spec fn config_candidates(xdg: Option<Seq<char>>, home: Option<Seq<char>>) -> Seq<Seq<char>> {
    let a = if xdg is Some && xdg->0.len() > 0 {
        seq![joined(joined(xdg->0, "truss"@), "config.lua"@)]
    } else {
        seq![]
    };
    let b = if home is Some && home->0.len() > 0 {
        seq![joined(joined(joined(home->0, ".config"@), "truss"@), "config.lua"@)]
    } else {
        seq![]
    };
    a + b + seq![system_config_path()]
}

/// The candidate configuration files, from the values of `XDG_CONFIG_HOME` and `HOME`.
pub fn default_config_candidates_from(xdg: Option<&str>, home: Option<&str>) -> (r: Vec<String>)
    ensures
        texts(r@) == config_candidates(opt_str(xdg), opt_str(home)),
{
    let mut r: Vec<String> = Vec::new();
    if let Some(x) = xdg {
        if x.unicode_len() > 0 {
            let a = path_join(x, "truss");
            r.push(path_join(a.as_str(), "config.lua"));
        }
    }
    if let Some(h) = home {
        if h.unicode_len() > 0 {
            let a = path_join(h, ".config");
            let b = path_join(a.as_str(), "truss");
            r.push(path_join(b.as_str(), "config.lua"));
        }
    }
    r.push(String::from_str("/etc/xdg/truss/config.lua"));
    assert(texts(r@) =~= config_candidates(opt_str(xdg), opt_str(home)));
    r
}

/// Whether candidate `i` exists, by the flags given for the candidates.
pub open spec fn flagged(exists: Seq<bool>, i: int) -> bool {
    0 <= i < exists.len() && exists[i]
}

/// The first of `candidates`, from position `i` on, that is flagged as existing.
pub open spec fn first_existing(candidates: Seq<Seq<char>>, exists: Seq<bool>, i: int) -> Option<Seq<char>>
    decreases candidates.len() - i,
{
    if i < 0 || i >= candidates.len() {
        None
    } else if flagged(exists, i) {
        Some(candidates[i])
    } else {
        first_existing(candidates, exists, i + 1)
    }
}

/// Where the configuration comes from: an explicit path wins unconditionally, then the
/// first candidate that exists (`exists[i]` tells for candidate `i`), else the embedded
/// default.
pub open spec fn config_source(cli_path: Option<Seq<char>>, candidates: Seq<Seq<char>>, exists: Seq<bool>) -> Option<Seq<char>> {
    if cli_path is Some {
        cli_path
    } else {
        first_existing(candidates, exists, 0)
    }
}

/// Resolves where the configuration comes from (see `config_source`); a candidate without
/// a flag counts as missing.
pub fn resolve_config_source(cli_path: Option<&str>, candidates: &[String], exists: &[bool]) -> (r: ConfigSource)
    ensures
        match r {
            ConfigSource::File(p) => config_source(
                opt_str(cli_path),
                texts(candidates@),
                exists@,
            ) == Some(p@),
            ConfigSource::Embedded => config_source(
                opt_str(cli_path),
                texts(candidates@),
                exists@,
            ) is None,
        },
{
    let ghost cands = texts(candidates@);
    if let Some(p) = cli_path {
        return ConfigSource::File(String::from_str(p));
    }
    let mut i: usize = 0;
    while i < candidates.len()
        invariant
            i <= candidates@.len(),
            cands == texts(candidates@),
            cli_path is None,
            first_existing(cands, exists@, 0) == first_existing(cands, exists@, i as int),
        decreases candidates@.len() - i,
    {
        if i < exists.len() && exists[i] {
            return ConfigSource::File(candidates[i].clone());
        }
        i = i + 1;
    }
    ConfigSource::Embedded
}

/// The compositor settings a configuration can set.
#[derive(Debug, Clone, Copy, PartialEq, Eq, Structural)]
pub enum SettingKind {
    Gap,
    Ratio,
    BgColor,
    BorderWidth,
    ActiveBorderColor,
    InactiveBorderColor,
    Unknown,
}

/// The setting a name refers to.
pub open spec fn setting_kind(name: Seq<char>) -> SettingKind {
    if name == "gap"@ {
        SettingKind::Gap
    } else if name == "ratio"@ {
        SettingKind::Ratio
    } else if name == "bg_color"@ {
        SettingKind::BgColor
    } else if name == "border_width"@ || name == "border.width"@ {
        SettingKind::BorderWidth
    } else if name == "active_border_color"@ || name == "border.active"@ || name
        == "border.active_color"@ {
        SettingKind::ActiveBorderColor
    } else if name == "inactive_border_color"@ || name == "border.inactive"@ || name
        == "border.inactive_color"@ {
        SettingKind::InactiveBorderColor
    } else {
        SettingKind::Unknown
    }
}

/// The setting a name given to `truss.set` refers to.
pub fn classify_setting(name: &str) -> (k: SettingKind)
    ensures
        k == setting_kind(name@),
{
    if str_equal(name, "gap") {
        SettingKind::Gap
    } else if str_equal(name, "ratio") {
        SettingKind::Ratio
    } else if str_equal(name, "bg_color") {
        SettingKind::BgColor
    } else if str_equal(name, "border_width") || str_equal(name, "border.width") {
        SettingKind::BorderWidth
    } else if str_equal(name, "active_border_color") || str_equal(name, "border.active")
        || str_equal(name, "border.active_color") {
        SettingKind::ActiveBorderColor
    } else if str_equal(name, "inactive_border_color") || str_equal(name, "border.inactive")
        || str_equal(name, "border.inactive_color") {
        SettingKind::InactiveBorderColor
    } else {
        SettingKind::Unknown
    }
}

/// The value of a hexadecimal digit.
pub open spec fn hex_digit(c: char) -> Option<nat> {
    if '0' <= c <= '9' {
        Some((c as u32 - '0' as u32) as nat)
    } else if 'a' <= c <= 'f' {
        Some((c as u32 - 'a' as u32 + 10) as nat)
    } else if 'A' <= c <= 'F' {
        Some((c as u32 - 'A' as u32 + 10) as nat)
    } else {
        None
    }
}

/// The byte that the two hexadecimal digits `a`, `b` write, high digit first.
pub open spec fn hex_byte(a: char, b: char) -> Option<u8> {
    match (hex_digit(a), hex_digit(b)) {
        (Some(x), Some(y)) => Some((x * 16 + y) as u8),
        _ => None,
    }
}

/// The red, green and blue bytes of `#rgb` or `#rrggbb` (surrounding white space allowed).
pub open spec fn hex_color(s: Seq<char>) -> Option<(u8, u8, u8)> {
    let t = trimmed(s);
    if t.len() > 0 && t[0] == '#' && (forall|i: int| 1 <= i < t.len() ==> (#[trigger] t[i] as u32) < 0x80) {
        let h = t.drop_first();
        if h.len() == 3 {
            match (hex_byte(h[0], h[0]), hex_byte(h[1], h[1]), hex_byte(h[2], h[2])) {
                (Some(r), Some(g), Some(b)) => Some((r, g, b)),
                _ => None,
            }
        } else if h.len() == 6 {
            match (hex_byte(h[0], h[1]), hex_byte(h[2], h[3]), hex_byte(h[4], h[5])) {
                (Some(r), Some(g), Some(b)) => Some((r, g, b)),
                _ => None,
            }
        } else {
            None
        }
    } else {
        None
    }
}

fn hex_digit_value(c: char) -> (r: Option<u8>)
    ensures
        match r {
            Some(v) => hex_digit(c) == Some(v as nat),
            None => hex_digit(c) is None,
        },
{
    if '0' <= c && c <= '9' {
        Some((c as u32 - '0' as u32) as u8)
    } else if 'a' <= c && c <= 'f' {
        Some((c as u32 - 'a' as u32 + 10) as u8)
    } else if 'A' <= c && c <= 'F' {
        Some((c as u32 - 'A' as u32 + 10) as u8)
    } else {
        None
    }
}

fn hex_byte_value(a: char, b: char) -> (r: Option<u8>)
    ensures
        r == hex_byte(a, b),
{
    match (hex_digit_value(a), hex_digit_value(b)) {
        (Some(x), Some(y)) => Some(x * 16 + y),
        _ => None,
    }
}

/// Parses a color written `#rgb` or `#rrggbb` into its red, green and blue bytes.
pub fn parse_hex_color(s: &str) -> (r: Option<(u8, u8, u8)>)
    ensures
        r == hex_color(s@),
{
    let chars = chars_of(s);
    let t = trim_chars(&chars);
    if t.len() == 0 || t[0] != '#' {
        return None;
    }
    let mut i: usize = 1;
    while i < t.len()
        invariant
            1 <= i <= t@.len(),
            t@ == trimmed(s@),
            t@[0] == '#',
            forall|j: int| 1 <= j < i ==> (#[trigger] t@[j] as u32) < 0x80,
        decreases t@.len() - i,
    {
        if t[i] as u32 >= 0x80 {
            assert((t@[i as int] as u32) >= 0x80);
            assert(!(forall|j: int| 1 <= j < t@.len() ==> (#[trigger] t@[j] as u32) < 0x80));
            return None;
        }
        i = i + 1;
    }
    let ghost h = t@.drop_first();
    if t.len() == 4 {
        assert(h[0] == t@[1] && h[1] == t@[2] && h[2] == t@[3]);
        match (hex_byte_value(t[1], t[1]), hex_byte_value(t[2], t[2]), hex_byte_value(t[3], t[3])) {
            (Some(r), Some(g), Some(b)) => Some((r, g, b)),
            _ => None,
        }
    } else if t.len() == 7 {
        assert(h[0] == t@[1] && h[1] == t@[2] && h[2] == t@[3] && h[3] == t@[4] && h[4] == t@[5]
            && h[5] == t@[6]);
        match (hex_byte_value(t[1], t[2]), hex_byte_value(t[3], t[4]), hex_byte_value(t[5], t[6])) {
            (Some(r), Some(g), Some(b)) => Some((r, g, b)),
            _ => None,
        }
    } else {
        None
    }
}

} // verus!
