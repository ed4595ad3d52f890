# autocheck

A terminal runner for pre-configured checks (linting, formatting, tests,
manual reviews) on a code base, with its core verified by Verus.

## Layout

- `src/` — the verified library.
  - `text.rs`: string helpers (trimming, lines, decimals, path joining).
  - `config.rs`: the saved setup and its `key=value` file format.
  - `checks.rs`: commands, checks, groups, config validation, config file
    discovery rules.
  - `app.rs`: the runner state (`App`, viewed as `AppView`) and every
    transition: setup form, config selection, check list and selection,
    runs, manual verdicts, audited checks, log texts.
  - `protocol.rs`: the messages a run sends while it executes checks, their
    text form and how they are read back.
  - `keys.rs`: which command each key gives on each screen.
  - `display.rs`: what the screens show apart from styling.
  - `properties.rs`: properties that span several operations.
- `app/` — the program around the library: terminal drawing (ratatui,
  crossterm), files, git, the worker thread, JSON parsing (serde) and the
  machine's load (sysinfo).
- `tests/` — tests of the library.
