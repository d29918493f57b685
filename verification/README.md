# clipvault

The core of ClipVault, a keyboard-driven clipboard manager for Windows,
written in Verus. The functions under `src/` are verified against their
contracts; the calls into outside crates sit behind a few small trusted
wrappers whose contracts are stated in their doc comments, and a value that
depends on the clock (`capture::now_millis`) has no contract on its value.

- `src/history.rs` — the history table: storing, pruning (at most the
  configured number of unpinned entries, 500 by default, pinned ones never
  pruned), removing old unpinned entries, pinning, deleting, clearing,
  listing (pinned first, newest first, at most 300) and reading back.
- `src/archive.rs` — the member listing of `.zip` and `.7z` archives read
  into memory (`.rar` archives are read by the UnRAR library from their path
  in `app/`, and listed through `preview::collect_listing`).
- `src/snippets.rs`, `src/stats.rs`, `src/settings.rs` — saved snippets, the
  statistics, and the stored settings with their defaults.
- `src/search.rs` — the search: the query escaped into a SQL `LIKE` pattern
  and a verified matcher for that pattern.
- `src/laws.rs` — the properties that span operations, as proof functions.
- `src/capture.rs` — how clipboard contents become entries, and the
  de-duplication of repeated captures.
- `src/preview.rs`, `src/commands.rs`, `src/window.rs` — what the preview,
  the user's commands, export/import and the tray and windows decide.
- `src/text.rs`, `src/encode.rs`, `src/json.rs`, `src/raster.rs` — text
  helpers, hex/decimal/Base64/SHA-256, JSON string lists and images, with the
  calls into outside crates behind trusted wrappers whose contracts are
  stated in their doc comments.

`app/` is the Tauri program around the library (it also extracts the text of
PDF files, since the extractor can panic on malformed input): the clipboard listener,
SQLite persistence, file and archive reading, dialogs and windows.
