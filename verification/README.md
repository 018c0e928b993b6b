# reader_lib

The core of a desktop book reader that downloads books for offline reading, written
in Verus. Verus checks every function in `src/` against its contract; the calls into
`rusqlite`, `serde_json`, `chrono` and std that it cannot read are trusted items marked
`#[verifier::external_body]`, each stating what the outside code does.

- `src/text.rs`, `src/base64.rs`: character-level helpers and Base64.
- `src/images.rs`: image URLs in page HTML and covers, their local paths and the
  `localimg://` scheme, data URLs for cached images.
- `src/manager.rs`: the registry of running downloads with their pause and cancel
  flags, and its laws.
- `src/download.rs`: the download loop as a state machine (`DownloadRun::download_step`:
  event in, next action out) with its laws, and the store updates a download makes.
- `src/store.rs`: the SQLite book store, its four tables as mathematical maps and
  sequences, and one trusted statement per read or write.
- `src/db.rs`: the store commands, stated over those tables, and their laws.
- `src/config.rs`: the settings file (window size, cache directory).
- `app/`: the Tauri shell around the library: commands, HTTP, files, the async
  download loop.
- `tests/`: tests of the library, including an in-memory store.
