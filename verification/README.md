# dinotty

The rules of Dinotty — a terminal server for the desktop with a relay that
lets phones reach it — written in Verus, with the behaviour of each rule
stated in its contract and proved.

`src/` is the verified library:

- `text` — character-sequence operations (trimming, splitting, lines,
  prefixes, replacement, decimal numbers) with their specifications.
- `history` — shell history files read into frequency tables (zsh metadata
  and continuation lines included), and the suggestion store that ranks,
  records and deletes commands.
- `shell_profiles` — the shells a terminal can start and how a requested
  profile is found.
- `restore_state` — what a snapshot of the open tabs and panes keeps, and
  how a saved worksite is brought back.
- `tabs` — what requests to open, split, close, activate and rearrange tabs
  and panes are answered and what they change.
- `wire` — the JSON frames of the tunnel between relay and desktop.
- `relay` — the relay's password check, desktop registration, choice of
  desktop and per-frame decisions.
- `server` — the desktop server's command line, relay addresses, back-off,
  version information and access token.
- `outbound` — the desktop's client to the relay: when it connects, what
  it sends first, how long it waits, which pane gets the phone's keystrokes,
  the screen frames it pushes, and its table of bridged streams.
- `ids`, `clock` — fresh identifiers and the wall clock.

`tests/` exercises the library on concrete values. `app/` is the relay
program around it (sockets, tasks, JSON encoding and files), with the
desktop's outbound client and the desktop routes that need only this
library.
