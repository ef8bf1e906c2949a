# rmux

The back end of Rmux, a browser terminal for fnOS whose sessions live in tmux, as a
Verus-verified library with a thin service around it.

- `src/` — the library, verified with Verus:
  - `text.rs`: the string operations the rest is written with (trimming, splitting,
    decimal text, prefixes), each against a spec function.
  - `models.rs`: the records the API exchanges, with their views.
  - `config.rs`: the configuration (the `RMUX_*` variables first, default port 18732) and the search for tmux.
  - `auth.rs`: the passwd database, identity detection, token claims and extraction,
    the authentication decision, signed tokens (through `jsonwebtoken`), the application
    password (through `bcrypt`).
  - `registry.rs`: the table of live sessions and what each request may do with it.
  - `terminal.rs`: shell quoting and the tmux command lines.
  - `stream.rs`: the terminal socket as a state machine: event in, action out.
  - `api.rs`: uploads, background images, remote fetch checks (URLs through
    `reqwest::Url`), clipboard history records, theme settings.
  - `fresh.rs`: fresh UUIDs (`uuid`) and the clock (`chrono`).
- `app/` — the HTTP service (axum, tokio, SQLite, PTYs, files, processes), which performs
  the actions the library decides.
- `tests/` — tests of the library on concrete values.

In `app/`, `terminal.rs` holds two tmux helpers the terminal socket uses,
`prepare_tmux_session` (check the session and switch mouse capture off in one tmux
command queue) and `capture_tmux_history` (the scrollback above the visible screen), and
`db.rs` holds the SQLite connection and the schema of the clipboard history and theme
tables.
