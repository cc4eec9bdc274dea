# ccs

A profile switcher for a coding assistant. A profile names the models to use,
an API provider (its base URL and the variable that holds its key) and extra
environment variables; `ccs NAME` launches the assistant with that profile's
environment, and `ccs` alone opens a terminal manager to pick, create, edit
and delete profiles.

Layout:

- `src/` — the verified library.
  - `strmap.rs`: a string-keyed map kept in key order, with its view as a `Map`.
  - `text.rs`: string order, character/byte positions, and the std string
    operations the editor needs.
  - `config.rs`: profiles, the environment a profile builds, and the editable
    fields.
  - `launch.rs`: the command line and the launch environment.
  - `tui.rs`: the profile manager's state, the rows it shows, and what each
    key press does.
- `app/` — the program: reading and writing `~/.config/ccs/config.toml`,
  the terminal drawing and event loop, and launching the assistant.
- `tests/` — tests of the library.
