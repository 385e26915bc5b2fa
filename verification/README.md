# System Logs Diagnostic

A GNOME log viewer and diagnostic tool for systemd journals. The decision logic of the
application is a Verus-verified library; a thin GTK front end runs it.

## Layout

- `src/` — the verified library.
  - `models/` — log entries, severities, the filter state.
  - `journal/` — reading `journalctl -o json` records, batching the live stream,
    the `journalctl` arguments and boot list.
  - `processing/` — section and field filtering, sorting, the bounded entry cache,
    search query plans, the view refresh pipeline, debouncing, watched-file events.
  - `diagnostics/` — window counts, health status, result aggregation, the power-cycle
    audit of `last -x` output.
  - `export.rs` — the CSV rendering (RFC 4180 quoting) used by the CSV and archive exports.
  - `config.rs` — settings and their validation.
  - `ui/`, `utils/` — texts, icons and style classes shown by the views.
  - `text.rs`, `clock.rs` — text and timestamp helpers, and the calls into `std` and `chrono`.
- `tests/` — tests of the library on concrete values.
- `app/` — the GTK/libadwaita window, process and file I/O, the tantivy index, the
  floating-point health scores, serde forms of the library's types.
