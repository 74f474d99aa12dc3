# drive_clone_api

The core of a personal cloud drive (accounts, uploads in one piece or in
parts, folders, trash, sharing, search, a sync feed and the maintenance
jobs), written in Verus so that its rules are proved, not only tested.

Layout:

- `src/` is the verified library. Its functions carry contracts that
  Verus checks; the few that read the clock or a random source say only
  what holds of every value they can get. Calls into other crates (hashing, Argon2, base64, UUIDs,
  `url`, `chrono`) go through small trusted wrappers whose contracts are
  written against those crates' documentation; `src/crypto.rs`,
  `src/url_text.rs`, `src/ids.rs`, `src/clock.rs` and `src/text.rs` hold
  them. The proof functions named `lemma_*` state the library's laws:
  quota bounds, part sizes covering a file, session lifetimes, the sync
  cursor never moving back, storage reads after writes, the SigV4 query
  order, error answers, folder moves.
- `tests/` runs the library on concrete values.
- `app/` is the HTTP server around the library: axum routes, PostgreSQL
  through `sqlx`, S3 through `reqwest`. It performs the I/O and hands the
  results to the library for its decisions (upload and name validation,
  quota, part arithmetic, error and health answers); the SQL queries
  themselves, with the filters they apply, stay there.
