# cyber_tui

The verified core of a terminal client for a security-testing agent: chat
state and transcript layout, slash commands, markdown rendering, settings
navigation, the provider / MCP / environment / CTF forms, and the
application's state machine. Every function under `src/` carries a
contract that Verus proves.

## Layout

- `src/` — the library, written in Verus.
  - `text`, `num`, `order`, `strmap` — text helpers, decimal numbers, the
    text order and a sorted text map.
  - `slash`, `event`, `history`, `headless` — command parsing, key mapping,
    history file names and the non-interactive run's decisions.
  - `chat/` — the input box, transcript entries, the chat state, slash menu
    and history recall, line wrapping and transcript layout.
  - `markdown`, `style`, `theme` — styled lines and their palettes.
  - `settings`, `config`, `views/` — the settings page and its forms, the
    CTF panel and the providers' model picker.
  - `app`, `app_events`, `app_commands`, `app_bars` — the application: one
    step per key, agent report or slash command, returning the effects to
    perform; `app_laws` states what those steps keep.
- `tests/` — tests of the library on concrete values.
- `app/` — the terminal front end: key input, drawing, files and the agent
  backend, around the library.

## Checking

Verus verifies `src/`; `cargo test` runs `tests/`.
