# pirate_harbor

The core of the Pirate Harbor game launcher, verified with Verus.

- `src/` — the library. Every function carries a `requires`/`ensures`
  contract that Verus proves: text and number formatting, asset naming and
  deduplication markers, the background job queue and scheduler, schema
  migrations, search-query escaping, smart-collection rules, the directory
  scanner's ranking, playtime analytics (heatmap, year in review, identity
  profile), the recommendation engine, milestone statistics, export
  rendering, backup policy and achievement mappings. Calls into chrono,
  serde_json, urlencoding, uuid and a few `std` functions sit behind small
  trusted wrappers whose contracts say what those functions return.
- `tests/` — tests of the library on concrete values.
- `app/` — the application around the library: SQLite through rusqlite,
  files, zip archives, image processing, HTTP clients and the worker
  thread. It reads, asks the library to decide, and writes back.
