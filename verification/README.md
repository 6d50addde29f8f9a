# FlashCron

A cron daemon whose scheduling, configuration and bookkeeping logic is a
library with contracts proved by Verus.

- `src/` — the library: reading and validating the TOML configuration
  (`config/`), cron schedules and time zones (`config/schedule.rs`,
  `config/settings.rs`), the scheduler's queue, permits and state
  (`scheduler/`), the executor's command lines and output capture
  (`executor/`), history rows (`history.rs`), the API's decisions
  (`api.rs`) and what the command line prints (`cmd/`). Calls into the
  `cron`, `chrono`, `chrono-tz`, `toml`, `uuid` and `serde_json` crates,
  and into `String::from_utf8_lossy`, go through a few trusted functions:
  their `ensures` clauses are believed, not proved, and their doc comments
  say what those clauses claim.
- `app/` — the program around it: the command line (clap), the daemon's
  loop (tokio), running processes, the SQLite history, the HTTP API (axum),
  the file watcher and logging (fern).
- `tests/` — tests of the library.
