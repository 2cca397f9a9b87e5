# raindrop_sync

Syncs all Raindrop.io bookmarks to a local `bookmarks.json` and writes the
bookmarks updated since the start of today, of the week and of the month to
`last_day_bookmarks.json`, `last_week_bookmarks.json` and
`last_month_bookmarks.json` beside it.

Set `RAINDROP_TOKEN` and run the program. The output path comes from
`output_path` in `config.toml` in the working directory, or defaults to
`~/Documents/Projects/Continual Study and Research/bookmarks.json`; a leading
`~/` is expanded to `$HOME`. The log setup in `app/log_setup.rs` (not called by
the program) writes to `$XDG_STATE_HOME/raindrop_sync` or
`~/.local/state/raindrop_sync` and removes rotated logs older than seven days.

## Layout

- `src/` is the library, verified with Verus: the API and output records
  (`models`), the configuration (`config`, `paths`), the paging and request
  rules (`api`), the naming of bookmarks by collection (`sync`), the calendar
  starts of day, week and month (`calendar`), the recent-bookmark views
  (`filter`) and the log directory and retention rules (`logging`).
- `app/` is the program around it: HTTP, the clock and time zone, files,
  environment variables, serde and logging setup.
- `tests/` runs the library on concrete values.
