# pgCrab

pgCrab documents a PostgreSQL schema and lints it and the SQL embedded in
code. The library under `src/` is written in Verus: each public function
states what it returns in its contract, and the properties that tie
functions together are stated as proof functions.

## Layout

- `src/text.rs`: string operations (trimming, lines, prefixes, decimal
  numbers) with their specifications.
- `src/name_map.rs`: `NameMap`, a map kept in increasing order of its
  string keys.
- `src/intermediate.rs`: the schema as the documentation sees it.
- `src/doc/`: comments harvested from SQL migrations (`gather_comments`),
  tables built from the database's rows (`gather_database`), harvested
  comments brought into the schema (`combine`), the list of items without
  comments (`uncommented`) and `COMMENT ON` statements with dollar-quoted
  comments (`comment_on`).
- `src/lint/`: diagnostic classifications, the schema rules' names, and the
  linting of SQL found in Python, Rust and SQL files (`sql`).
- `src/config.rs`: the configuration, its warnings, concessions, and the
  decisions of the search for the config file.
- `src/report.rs`: counts, summary lines and underlined parts of the lint
  reports.
- `src/render.rs`: rendering the documentation with a Jinja template
  (`minijinja`), and the Markdown filter offered to templates.
- `app/`: the `pgcrab` command: argument parsing, the database connection,
  file reading (the template among them) and
  printing.
- `tests/`: tests of the library.
