# QuotaDock core

QuotaDock is a Windows-first local status tool for the weekly Codex quota and
the DeepSeek and Kimi API balances. This crate is its core, written in Verus:
each function states its behaviour in `requires` / `ensures` and is proved.

## Layout

- `src/` — the verified library:
  - `status_parser` reads the Codex `/status` panel text (percentages, reset
    times and countdowns); `app_server` maps the app server's rate-limit reply;
  - `models`, `usage_store` — the stored state (schema v5), its repair on load,
    migration of earlier versions, the sparse weekly history and every change
    the app saves;
  - `providers` (with `deepseek`, `kimi`), `http_client`, `credentials` — the
    balance payloads, error categories and credential targets;
  - `commands`, `reminder` — refresh scheduling and reporting, the `/status`
    session steps, Codex candidate paths, reset reminders and low-quota notices;
  - `updates` — update statuses, strict release versions, the rollback guard,
    signature checks and the verified-package cache framing;
  - `redaction`, `codex_probe`, `details`, `startup`, `window_state`,
    `floating_bar`, `tray_icon`, `official_links`, `text`.
- `app/` — the unverified shell: files, processes, the pseudo-terminal, HTTP,
  the OS credential store, serde copies of the library types, and the
  floating-point scale conversions. It decides nothing the library can decide.
- `tests/` — unit tests that run the library with its outside crates linked.
