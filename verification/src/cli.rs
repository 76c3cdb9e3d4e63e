use vstd::prelude::*;

use crate::dispatch::{Command, Direction};
use crate::state::window::WindowId;
use crate::text::{chars_of, parse_unsigned, parse_unsigned_chars, push_str, str_equal, to_lowercase, text_lowercase};

verus! {

/// What the command line asks for besides running the compositor.
#[derive(Debug, PartialEq, Eq)]
pub enum Subcommand {
    /// Send an IPC message; holds the words after `msg`.
    Msg(Vec<String>),
    Bar,
    InitConfig,
    Version,
    Help,
}

/// The command-line options.
#[derive(Debug)]
pub struct CliArgs {
    pub config_path: Option<String>,
    pub socket_name: String,
    pub backend: Option<String>,
    pub subcommand: Option<Subcommand>,
    /// The argument parsing stopped at because it was not recognized.
    pub unrecognized: Option<String>,
}

/// The text of a subcommand, as a value.
pub enum SubcommandView {
    Msg(Seq<Seq<char>>),
    Bar,
    InitConfig,
    Version,
    Help,
}

/// The text of the command-line options, as a value.
pub struct CliView {
    pub config_path: Option<Seq<char>>,
    pub socket_name: Seq<char>,
    pub backend: Option<Seq<char>>,
    pub subcommand: Option<SubcommandView>,
    pub unrecognized: Option<Seq<char>>,
}

/// The characters of each string.
pub open spec fn texts(v: Seq<String>) -> Seq<Seq<char>> {
    v.map_values(|s: String| s@)
}

pub open spec fn opt_text(o: Option<String>) -> Option<Seq<char>> {
    match o {
        Some(s) => Some(s@),
        None => None,
    }
}

impl View for Subcommand {
    type V = SubcommandView;

    open spec fn view(&self) -> SubcommandView {
        match self {
            Subcommand::Msg(words) => SubcommandView::Msg(texts(words@)),
            Subcommand::Bar => SubcommandView::Bar,
            Subcommand::InitConfig => SubcommandView::InitConfig,
            Subcommand::Version => SubcommandView::Version,
            Subcommand::Help => SubcommandView::Help,
        }
    }
}

impl View for CliArgs {
    type V = CliView;

    open spec fn view(&self) -> CliView {
        CliView {
            config_path: opt_text(self.config_path),
            socket_name: self.socket_name@,
            backend: opt_text(self.backend),
            subcommand: match self.subcommand {
                Some(s) => Some(s@),
                None => None,
            },
            unrecognized: opt_text(self.unrecognized),
        }
    }
}

/// The options before any argument is read.
pub open spec fn default_cli() -> CliView {
    CliView {
        config_path: None,
        socket_name: "truss-0"@,
        backend: None,
        subcommand: None,
        unrecognized: None,
    }
}

/// The options after reading `args` from position `i` on, starting from `acc`: an option
/// that takes a value consumes the next argument (and is ignored when there is none); a
/// subcommand, a help or version flag, or an unrecognized argument ends the reading.
pub open spec fn parse_args(args: Seq<Seq<char>>, i: nat, acc: CliView) -> CliView
    decreases args.len() - i,
{
    if i >= args.len() {
        acc
    } else {
        let a = args[i as int];
        let has_value = i + 1 < args.len();
        if a == "-c"@ || a == "--config"@ {
            if has_value {
                parse_args(args, i + 2, CliView { config_path: Some(args[i + 1 as int]), ..acc })
            } else {
                acc
            }
        } else if a == "-s"@ || a == "--socket"@ {
            if has_value {
                parse_args(args, i + 2, CliView { socket_name: args[i + 1 as int], ..acc })
            } else {
                acc
            }
        } else if a == "-b"@ || a == "--backend"@ {
            if has_value {
                parse_args(
                    args,
                    i + 2,
                    CliView { backend: Some(text_lowercase(args[i + 1 as int])), ..acc },
                )
            } else {
                acc
            }
        } else if a == "-V"@ || a == "--version"@ {
            CliView { subcommand: Some(SubcommandView::Version), ..acc }
        } else if a == "-h"@ || a == "--help"@ {
            CliView { subcommand: Some(SubcommandView::Help), ..acc }
        } else if a == "bar"@ {
            CliView { subcommand: Some(SubcommandView::Bar), ..acc }
        } else if a == "init-config"@ {
            CliView { subcommand: Some(SubcommandView::InitConfig), ..acc }
        } else if a == "msg"@ {
            CliView {
                subcommand: Some(SubcommandView::Msg(args.subrange(i + 1 as int, args.len() as int))),
                ..acc
            }
        } else {
            CliView { subcommand: Some(SubcommandView::Help), unrecognized: Some(a), ..acc }
        }
    }
}

fn is_either(a: &str, short: &str, long: &str) -> (r: bool)
    ensures
        r == (a@ == short@ || a@ == long@),
{
    str_equal(a, short) || str_equal(a, long)
}

impl CliArgs {
    /// Parses the command-line arguments (without the program name).
    pub fn parse_from(args: Vec<String>) -> (cli: CliArgs)
        ensures
            cli@ == parse_args(texts(args@), 0, default_cli()),
    {
        let ghost all = texts(args@);
        let mut cli = CliArgs {
            config_path: None,
            socket_name: String::from_str("truss-0"),
            backend: None,
            subcommand: None,
            unrecognized: None,
        };
        let mut i: usize = 0;
        while i < args.len()
            invariant
                all == texts(args@),
                i <= args@.len(),
                cli.subcommand is None,
                cli.unrecognized is None,
                parse_args(all, i as nat, cli@) == parse_args(all, 0, default_cli()),
            decreases args@.len() - i,
        {
            let a = args[i].as_str();
            let has_value = i + 1 < args.len();
            assert(all[i as int] == a@);
            if is_either(a, "-c", "--config") {
                if has_value {
                    assert(all[i + 1] == args@[i + 1]@);
                    cli.config_path = Some(args[i + 1].clone());
                    i = i + 2;
                } else {
                    return cli;
                }
            } else if is_either(a, "-s", "--socket") {
                if has_value {
                    assert(all[i + 1] == args@[i + 1]@);
                    cli.socket_name = args[i + 1].clone();
                    i = i + 2;
                } else {
                    return cli;
                }
            } else if is_either(a, "-b", "--backend") {
                if has_value {
                    assert(all[i + 1] == args@[i + 1]@);
                    cli.backend = Some(to_lowercase(args[i + 1].as_str()));
                    i = i + 2;
                } else {
                    return cli;
                }
            } else if is_either(a, "-V", "--version") {
                cli.subcommand = Some(Subcommand::Version);
                return cli;
            } else if is_either(a, "-h", "--help") {
                cli.subcommand = Some(Subcommand::Help);
                return cli;
            } else if str_equal(a, "bar") {
                cli.subcommand = Some(Subcommand::Bar);
                return cli;
            } else if str_equal(a, "init-config") {
                cli.subcommand = Some(Subcommand::InitConfig);
                return cli;
            } else if str_equal(a, "msg") {
                let mut rest: Vec<String> = Vec::new();
                let mut j: usize = i + 1;
                while j < args.len()
                    invariant
                        all == texts(args@),
                        i + 1 <= j <= args@.len(),
                        texts(rest@) == all.subrange(i + 1, j as int),
                    decreases args@.len() - j,
                {
                    let ghost prev = rest@;
                    rest.push(args[j].clone());
                    assert(rest@ =~= prev.push(args@[j as int]));
                    assert(texts(rest@) =~= texts(prev).push(args@[j as int]@));
                    assert(texts(rest@) =~= all.subrange(i + 1, j + 1));
                    j = j + 1;
                }
                cli.subcommand = Some(Subcommand::Msg(rest));
                return cli;
            } else {
                cli.subcommand = Some(Subcommand::Help);
                cli.unrecognized = Some(args[i].clone());
                return cli;
            }
        }
        cli
    }
}

/// Why `truss msg` could not build a command.
#[derive(Debug, PartialEq, Eq)]
pub enum MsgError {
    MissingCommand,
    /// Holds the unknown command word.
    UnknownCommand(String),
}

/// Text of a `truss msg` error.
pub open spec fn msg_error_text(e: MsgError) -> Seq<char> {
    match e {
        MsgError::MissingCommand => "truss msg: missing command. Run `truss --help` for available commands."@,
        MsgError::UnknownCommand(w) => "truss msg: unknown command '"@ + w@ + "'."@,
    }
}

impl MsgError {
    /// The error's text.
    pub fn message(&self) -> (s: String)
        ensures
            s@ == msg_error_text(*self),
    {
        match self {
            MsgError::MissingCommand => String::from_str(
                "truss msg: missing command. Run `truss --help` for available commands.",
            ),
            MsgError::UnknownCommand(w) => {
                let mut s = String::from_str("truss msg: unknown command '");
                push_str(&mut s, w.as_str());
                push_str(&mut s, "'.");
                s
            },
        }
    }
}

/// The words of `parts` joined with single spaces.
pub open spec fn join_words(parts: Seq<Seq<char>>) -> Seq<char>
    decreases parts.len(),
{
    if parts.len() == 0 {
        Seq::empty()
    } else if parts.len() == 1 {
        parts[0]
    } else {
        join_words(parts.drop_last()) + " "@ + parts.last()
    }
}

/// The number the word at position `i` denotes, if there is one and it parses within `max`.
pub open spec fn number_arg(args: Seq<Seq<char>>, i: int, max: nat) -> Option<nat> {
    if 0 <= i < args.len() {
        parse_unsigned(args[i], max)
    } else {
        None
    }
}

/// The window a word names (its number), if it parses as a `u64`.
pub open spec fn window_arg(args: Seq<Seq<char>>) -> Option<WindowId> {
    match number_arg(args, 1, u64::MAX as nat) {
        Some(n) => Some(WindowId(n as u64)),
        None => None,
    }
}

/// The number argument, or `default` when it is missing or does not parse as a `u32`.
pub open spec fn u32_arg_or(args: Seq<Seq<char>>, default: u32) -> u32 {
    match number_arg(args, 1, u32::MAX as nat) {
        Some(n) => n as u32,
        None => default,
    }
}

/// How `msg_command` answers the words `args` of `truss msg`, `ratio` standing for the
/// already converted argument of `set-ratio`.
pub open spec fn msg_outcome(args: Seq<String>, ratio: Option<i64>, r: Result<Command, MsgError>) -> bool {
    let w = texts(args);
    if w.len() == 0 {
        r == Err::<Command, MsgError>(MsgError::MissingCommand)
    } else {
        let name = w[0];
        if name == "state-get"@ {
            r == Ok::<Command, MsgError>(Command::StateGet)
        } else if name == "workspace-switch"@ {
            r == Ok::<Command, MsgError>(Command::WorkspaceSwitch { id: u32_arg_or(w, 1) })
        } else if name == "window-focus-dir"@ {
            r == Ok::<Command, MsgError>(
                Command::WindowFocusDir {
                    direction: if w.len() > 1 && w[1] == "prev"@ {
                        Direction::Prev
                    } else {
                        Direction::Next
                    },
                },
            )
        } else if name == "swap-master"@ {
            r == Ok::<Command, MsgError>(Command::WindowSwapMaster)
        } else if name == "close-window"@ {
            r == Ok::<Command, MsgError>(Command::WindowClose { id: window_arg(w) })
        } else if name == "toggle-floating"@ {
            r == Ok::<Command, MsgError>(Command::WindowToggleFloating { id: window_arg(w) })
        } else if name == "toggle-fullscreen"@ {
            r == Ok::<Command, MsgError>(Command::WindowToggleFullscreen { id: window_arg(w) })
        } else if name == "layout-set"@ {
            r matches Ok(Command::LayoutSet { layout }) && layout@ == (if w.len() > 1 {
                w[1]
            } else {
                "master"@
            })
        } else if name == "set-gap"@ {
            r == Ok::<Command, MsgError>(Command::LayoutSetGap { gap: u32_arg_or(w, 8) })
        } else if name == "set-ratio"@ {
            r == Ok::<Command, MsgError>(Command::LayoutSetRatio { ratio })
        } else if name == "spawn"@ {
            r matches Ok(Command::Spawn { command }) && command@ == join_words(w.drop_first())
        } else if name == "quit"@ {
            r == Ok::<Command, MsgError>(Command::CompositorQuit)
        } else {
            r matches Err(MsgError::UnknownCommand(u)) && u@ == name
        }
    }
}

fn arg_number(args: &Vec<String>, i: usize, max: u64) -> (r: Option<u64>)
    ensures
        match r {
            Some(n) => number_arg(texts(args@), i as int, max as nat) == Some(n as nat),
            None => number_arg(texts(args@), i as int, max as nat) is None,
        },
{
    if i < args.len() {
        let chars = chars_of(args[i].as_str());
        parse_unsigned_chars(&chars, max)
    } else {
        None
    }
}

/// Builds the command that `truss msg <COMMAND> [ARGS...]` sends. `ratio` is the argument of
/// `set-ratio` as the dispatcher takes it: the parsed number (0.55 when missing or
/// unparsable) in ten-thousandths, or `None` when it is not finite.
pub fn msg_command(args: &Vec<String>, ratio: Option<i64>) -> (r: Result<Command, MsgError>)
    ensures
        msg_outcome(args@, ratio, r),
{
    let ghost w = texts(args@);
    if args.len() == 0 {
        return Err(MsgError::MissingCommand);
    }
    let name = args[0].as_str();
    assert(w[0] == name@);
    if str_equal(name, "state-get") {
        Ok(Command::StateGet)
    } else if str_equal(name, "workspace-switch") {
        let id: u32 = match arg_number(args, 1, 0xffff_ffff) {
            Some(n) => n as u32,
            None => 1,
        };
        Ok(Command::WorkspaceSwitch { id })
    } else if str_equal(name, "window-focus-dir") {
        let prev = args.len() > 1 && str_equal(args[1].as_str(), "prev");
        proof {
            if args.len() > 1 {
                assert(w[1] == args@[1]@);
            }
        }
        Ok(Command::WindowFocusDir { direction: if prev { Direction::Prev } else { Direction::Next } })
    } else if str_equal(name, "swap-master") {
        Ok(Command::WindowSwapMaster)
    } else if str_equal(name, "close-window") {
        let id = match arg_number(args, 1, 0xffff_ffff_ffff_ffff) {
            Some(n) => Some(WindowId(n)),
            None => None,
        };
        Ok(Command::WindowClose { id })
    } else if str_equal(name, "toggle-floating") {
        let id = match arg_number(args, 1, 0xffff_ffff_ffff_ffff) {
            Some(n) => Some(WindowId(n)),
            None => None,
        };
        Ok(Command::WindowToggleFloating { id })
    } else if str_equal(name, "toggle-fullscreen") {
        let id = match arg_number(args, 1, 0xffff_ffff_ffff_ffff) {
            Some(n) => Some(WindowId(n)),
            None => None,
        };
        Ok(Command::WindowToggleFullscreen { id })
    } else if str_equal(name, "layout-set") {
        let layout = if args.len() > 1 {
            assert(w[1] == args@[1]@);
            args[1].clone()
        } else {
            String::from_str("master")
        };
        Ok(Command::LayoutSet { layout })
    } else if str_equal(name, "set-gap") {
        let gap: u32 = match arg_number(args, 1, 0xffff_ffff) {
            Some(n) => n as u32,
            None => 8,
        };
        Ok(Command::LayoutSetGap { gap })
    } else if str_equal(name, "set-ratio") {
        Ok(Command::LayoutSetRatio { ratio })
    } else if str_equal(name, "spawn") {
        let mut command = String::new();
        let mut i: usize = 1;
        while i < args.len()
            invariant
                w == texts(args@),
                1 <= i <= args@.len(),
                command@ == join_words(w.subrange(1, i as int)),
            decreases args@.len() - i,
        {
            if i > 1 {
                push_str(&mut command, " ");
            }
            push_str(&mut command, args[i].as_str());
            proof {
                let before = w.subrange(1, i as int);
                let after = w.subrange(1, i + 1);
                assert(after.drop_last() =~= before);
                assert(after.last() == args@[i as int]@);
                if i == 1 {
                    assert(before =~= Seq::<Seq<char>>::empty());
                }
            }
            i = i + 1;
        }
        assert(w.subrange(1, w.len() as int) =~= w.drop_first());
        Ok(Command::Spawn { command })
    } else if str_equal(name, "quit") {
        Ok(Command::CompositorQuit)
    } else {
        Err(MsgError::UnknownCommand(args[0].clone()))
    }
}

/// The backend the compositor starts on.
#[derive(Debug, Clone, Copy, PartialEq, Eq, Structural)]
pub enum BackendChoice {
    /// A window nested in a running desktop.
    Winit,
    /// The console, through the session, input and display devices.
    Tty,
    /// Only the socket, with no output device.
    Headless,
}

/// The backend asked for by `--backend`, or, with no known name, the console when the
/// compositor was started from a terminal and a nested window otherwise.
pub open spec fn backend_for(forced: Option<Seq<char>>, launched_from_tty: bool) -> BackendChoice {
    match forced {
        Some(name) if name == "winit"@ => BackendChoice::Winit,
        Some(name) if name == "tty"@ => BackendChoice::Tty,
        Some(name) if name == "headless"@ => BackendChoice::Headless,
        _ => if launched_from_tty {
            BackendChoice::Tty
        } else {
            BackendChoice::Winit
        },
    }
}

/// Picks the backend from the `--backend` option and whether standard input is a terminal.
pub fn backend_choice(forced: Option<&str>, launched_from_tty: bool) -> (b: BackendChoice)
    ensures
        b == backend_for(
            match forced {
                Some(s) => Some(s@),
                None => None,
            },
            launched_from_tty,
        ),
{
    match forced {
        Some(name) => {
            if str_equal(name, "winit") {
                return BackendChoice::Winit;
            } else if str_equal(name, "tty") {
                return BackendChoice::Tty;
            } else if str_equal(name, "headless") {
                return BackendChoice::Headless;
            }
        },
        None => {},
    }
    if launched_from_tty {
        BackendChoice::Tty
    } else {
        BackendChoice::Winit
    }
}

} // verus!
