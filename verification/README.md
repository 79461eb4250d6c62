# RusioDB

A desktop database manager for SQLite, PostgreSQL, MySQL and MongoDB. The
decisions the program makes are a library whose functions carry their
contracts and proofs; the windows, the drivers, the credential store and the network sit around it.

## Layout

- `src/` — the verified library (`rusiodb`):
  - `session.rs`: the desktop session as a state machine. `Session::update`
    takes one event and answers with the effects to carry out; its contract
    (`Session::step`) says exactly what each event does.
  - `properties.rs`: what holds across events (two-step delete, one form
    window, tabs and connections that do not disturb each other, ...).
  - `explorer.rs`: the rows of the connections tree (schemas sorted and
    listed once, one folder per object kind).
  - `screen.rs`: menu and button states, titles, the tab bar, the figures
    under the results, keyboard shortcuts.
  - `drivers.rs`, `catalog.rs`, `db.rs`, `results.rs`, `mongo.rs`: forms and
    their checks, connection plans, catalog rows, result grids, previews,
    MongoDB commands.
  - `connections.rs`: saved profiles, which never hold a password.
  - `updater.rs`: whether a published release is an update for this build.
  - `text.rs`: character-level helpers (trimming, decimals, quoting, order).
- `tests/` — tests of the library on concrete values.
- `app/` — the iced program: widgets, windows, database drivers, keyring,
  the profiles file and the update download.

## Checking

Verify the library with Verus (`verus src/lib.rs` with the crate's
dependencies) and run the tests with `cargo test`.
