# caliban

The terminal front end of a coding agent: the prompt and its history, the
transcript, the overlays, permission requests, slash commands, and what every
key does. It is written in Rust and verified with Verus.

## How it is laid out

- `src/` decides. It holds the state of the front end (`App`) and functions from
  state and event to next state and effects. Nothing in it reads a clock, a file
  or the terminal: times come in as milliseconds, and what is to be done goes out
  as `Effect` values. Each function's contract says over mathematical views what
  it returns and how the state changes; the functions named `law_` say what holds
  of several of them together.
  - `app`, `input`, `toast`, `mouse_select`, `reverse_history`,
    `transcript_viewer`: the state and its parts
  - `events`, `permissions`, `agent_events`, `menu`: keys, the mouse and the
    events of a turn
  - `replies`, `shell_escape`, `rewind`, `slash/answers`: taking in what came of
    an effect
  - `slash`, `slash/…`: the commands
  - `render`, `render/…`, `overlay`, `overlay/…`, `layout`, `terminal`, `style`:
    what is drawn where
  - `ask`, `attach`, `clipboard`, `completer`, `external_editor`, `json`,
    `order`, `path`, `text`, `version`: what these are made of
- `app/` does. It turns terminal events into the library's, draws its lines with
  ratatui, and carries the effects out. The agent itself stands behind the trait
  `Host`.
- `tests/` runs the library on given values, with the crates that it calls.

## What is trusted

A few functions of other crates and of the standard library are called with
contracts that are believed, not proved: base64 encoding, fuzzy scores, parsing
JSON, decimal formatting, splitting an area, reading and painting cells of a
buffer, and the Unicode tables for letters and lower case. Each says in its doc
comment what is claimed.
