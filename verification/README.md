# Heartbeat Control Center — verified core

The core of the Tragentics Heartbeat Control Center: the heartbeat
scheduler, the failure discipline (backoff, Retry-After, halts), the beat
history, the fleet commands and the encrypted Local Vault, written in Verus
with contracts over mathematical models and proved.

Layout:

- `src/` — the verified library.
  - `api.rs`, `errors.rs`: status → error mapping, token shape and
    fingerprints, base-URL rules, endpoints, probe and local-check verdicts.
  - `config.rs`: settings and agent records, interval clamping.
  - `table.rs`: the string-keyed table that holds per-agent state.
  - `history.rs`: capped beat rings and activity feed, window counts.
  - `engine.rs`: the scheduler's state machine (`due_jobs`, `apply_success`,
    `apply_error`, tray severity).
  - `commands.rs`, `cycle.rs`, `snapshot.rs`: the decisions behind the UI
    commands, one beat's cycle, and what the UI and tray show.
  - `vault.rs`: the vault state machine over AES-256-GCM, Argon2id, base64
    and the JSON payload, each outside call behind a stated wrapper.
  - `laws.rs`: properties of the library as a whole (launch limits, the
    launch order being determined, backoff, halts, shutdown reporting,
    capped rings, fingerprints).
- `tests/` — tests of the library on concrete values.
- `app/` — the Tauri shell: windows, tray, timers, HTTP, files and the OS
  credential store.
