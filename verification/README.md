# imbuia

A terminal multiplexer for working on several git worktrees in parallel: a
sidebar of projects and worktrees, a stack of terminal tabs for each worktree,
and a long-lived supervisor process that owns the terminals, so that sessions
survive restarts of the client.

The logic is a Verus library: executable Rust whose behaviour is stated in
contracts and proved.

## Layout

- `src/` — the verified library.
  - `app`, `reducer`, `keys`, `mouse`, `popups`, `commands`, `cmdline`,
    `lifecycle`, `sidebar`, `tabs`, `usage`, `palette`: the state of the client
    and what every action does to it. `invariants` and `lockstep` show that
    every step keeps the state sound, and its sessions and tabs in step.
  - `keybinds`, `keytable`, `cmdtable`: bindings, their notation, and commands.
  - `emulator`, `input`, `screen`, `cells`: output on its way to a screen, keys
    and mouse events as bytes, the modes of a screen, and the cells that are drawn
    of it.
  - `render`, `overlays`, `help`, `drawing`, `layout`, `theme`: what is shown
    where.
  - `ipc`, `client`, `proxy`, `supervisor`, `process`, `transport`: what client
    and supervisors say to each other, who is trusted, and what each side keeps of
    a session.
  - `config`, `git`, `github`, `updater`, `clipboard`, `paths`, `text`: slugs and
    trust files, git conversations, pull requests, releases, and the texts that
    they are made of.
  - `runtime`: what a command comes to outside.
- `tests/` — tests of the library.
- `app/` — the program: terminal, sockets, TLS, PTYs, files.

Public proof functions whose names start with `law_` state what holds of the
library as a whole.
