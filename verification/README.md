# posit-connect-secrets-manager

A terminal UI for bulk-managing environment variables across Posit Connect
content items: a local vault of key/value pairs, a per-project whitelist and
per-variable blacklist, and a safe-merge sync that only overlays vault values
on variables a project already has.

## Layout

- `src/` — the library, verified with Verus. The application state is a
  plain value; every reaction (a key, the answer of a request, a clock tick)
  is a function from the state to the next state and a list of effects,
  with a contract that states both.
  - `app.rs` — the state, pages, keys, events and effects.
  - `keys.rs` — key handling for every page and popup.
  - `events.rs`, `edits.rs`, `sync.rs`, `rows.rs`, `filtering.rs` — answers of
    requests, variable edits, the safe-merge sync, the Env Vars rows, the
    list filter.
  - `view.rs` — what the screen shows: lines, tables, popups and cursor rows.
  - `vault.rs`, `config.rs`, `theme.rs`, `model.rs`, `api.rs`, `clock.rs`,
    `filter.rs`, `order.rs`, `text.rs` — the vault (an `IndexMap`), the
    configuration, themes, data types, Connect endpoints, refresh times,
    regular-expression filtering, stable sorting and string helpers.
- `app/` — the program: terminal, event loop, drawing with ratatui, HTTP
  requests with reqwest, the configuration and vault files, the editor.
- `tests/` — tests of the library.
