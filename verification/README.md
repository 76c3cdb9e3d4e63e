# truss

A keyboard-first dynamic tiling Wayland compositor whose core is verified with Verus.

## Layout

- `src/` — the verified library. Its functions carry `requires`/`ensures` contracts that
  Verus proves. The exceptions are a few trusted wrappers around std and the `xcursor`
  parser (string, map, character and clock calls), whose contracts are believed rather
  than proved, and the functions that read the clock (`Transaction::elapsed_ms`,
  `Transaction::is_expired`), whose answer the clock decides; `Transaction::is_expired_at`
  states the answer for each reading. Layouts that users register (`Layout`,
  `LayoutRegistry::register_fn`) run their own, unverified code.
  - `state/` — windows, workspaces, focus history and window rules, with the state
    invariant (`State::wf`) that every operation keeps.
  - `layout/` — master/stack, monocle and grid arrangements, the `Layout` trait for
    layouts that users supply, and the layout registry.
  - `dispatch/` — commands, events and the dispatcher; `dispatch/outcome.rs` states what
    each command does.
  - `input/` — keybindings (patterns, lookup, key responses, VT switching), pointer
    targets, button responses and window dragging.
  - `scene.rs` — stacking order of windows and layer surfaces, visible windows, borders,
    and what each client is told and when it must be told again.
  - `sync/` — resize transactions.
  - `backend/drm.rs` — choosing card nodes, modes and CRTCs for the console backend.
  - `config/watch.rs` — reading the inotify records that say the configuration changed.
  - `config/`, `cli.rs`, `bar.rs`, `process.rs`, `ipc/` — configuration resolution and
    entries, command-line parsing and `truss msg`, the status line, login shells, and IPC
    requests and answers.
  - `laws.rs` — properties that relate several operations, stated and proved.
- `tests/` — tests of the library on concrete values.
- `app/` — the program around the library: Wayland protocols and rendering (smithay),
  the Lua runtime (mlua), sockets, files, processes and serde.

Run `truss --help` for the command line; `truss init-config` writes a starting
configuration to `~/.config/truss/config.lua`.
