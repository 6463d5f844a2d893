# moneo

`moneo` manages the reminders of the Due app on macOS: it lists them, adds
one through Due's x-callback URL, edits or deletes them in Due's database,
shows the completion log, and keeps a git-tracked JSON snapshot of them.
Times are Hong Kong time.

The library under `src/` is verified with Verus:

- `json` — the library's model of a JSON document;
- `reminders` — reading reminders, their listing order, numbered lookup,
  deleting one and recording deletions (`dl`);
- `order` — stable ordering by an integer key, and its uniqueness;
- `time` — Hong Kong local time (through `chrono_tz`), the display of due
  times, and reading `--in`, `--at`, `--date`;
- `listing` — the `ls` and `log` tables;
- `add`, `edit`, `remove` — the decisions of those commands;
- `snapshot` — snapshot records and whether anything changed since the last one;
- `sync` — the Due x-callback URL;
- `store` — the database file's gzip framing, the steps of a safe write,
  and the snapshot log line;
- `recur`, `paths`, `text` — repeat tables, file locations, text helpers.

`app/main.rs` is the command-line program: arguments, files, processes and
printing.
