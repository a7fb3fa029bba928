# cyberdesk

The logic of the CyberDesk desktop shell as a Verus-verified library, with the
host program around it.

- `src/` — the verified library:
  - `harden.rs` — fingerprint-hardening levels and configs, resolution,
    the weakening classification, the compact config JSON, and reading a
    persisted config back (defaults for later vectors, Standard when it
    cannot be read); laws on resolution, weakening and reading.
  - `version.rs` — tolerant dotted versions and their zero-padded order;
    laws that the order is strict and ignores padding, build metadata and a
    leading `v`.
  - `json.rs` — a plain model of a JSON value (the IPC `vectors` object),
    member lookup (a repeated name keeps its last value), and compact JSON
    text of strings and booleans, escaped as `serde_json` writes them.
  - `updates.rs` — the update manifest and the info items built from it
    (with dismissal); laws on dismissal.
  - `update_state.rs` — the glyph/panel state, snapshot, running-version
    texts, "checked X ago", the info panel's reply text, the fetch / cache
    decisions, and the laws of what a rebuild counts and what recording a
    dismissal does.
  - `memory.rs` — which history/favorites store requests happen.
  - `shell.rs` — command line, window and event handling, browser key rules.
  - `logging.rs` — the log file location.
  - `text.rs` — string helpers (equality, trimming, case, decimals).
- `app/` — the program: winit event loop, CEF embedding, logging setup,
  the update worker and network fetch, the store calls, the typed serde
  readers of the config and manifest formats (`dto.rs`), and the slot
  geometry (floating point).
- `tests/` — tests of the library.
