# openrouter-widget

A desktop widget that shows the usage and remaining credits of an OpenRouter
API key. The decisions it makes are written in Verus and proved against their
contracts; the desktop shell around them is ordinary Rust.

## Layout

- `src/` — the verified library (crate `openrouter_widget`):
  - `error` — the error type and its messages;
  - `text` — text helpers used by the contracts;
  - `version` — reading and comparing release versions (through `semver`);
  - `update` — choosing the platform's update package from a release,
    update status, size and name checks on a requested download;
  - `update_signature` — checking an update package's detached ed25519
    signature;
  - `encoding`, `credentials` — hex, SHA-256 and the stored key's fingerprint;
  - `openrouter` — the API's response types, response handling, the standard
    and management dashboards and the daily usage history;
  - `commands` — app state, key modes, what a refresh records, the cached
    dashboard, tray actions, the start-up plan and when to check for updates.
- `tests/` — tests of the library on concrete values.
- `app/` — the Tauri shell: windows, tray, HTTP requests, keyring, SQLite,
  the settings file, and serde copies of the library's types.

Money amounts are a type parameter of the library (`f64` in the app); the
library moves them and adds or subtracts them only through `std::ops`.
