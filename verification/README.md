# clockwerk

Uptime and TLS-certificate monitoring for a desktop menubar app: the rules
that decide when a monitor is checked, what a check does to its state, which
alerts go out, how history is aggregated and how input is validated — each
stated as a contract and proved with Verus.

## Layout

- `src/` — the verified library.
  - `state.rs` — the up/down state machine (two consecutive failures go
    down, one success recovers).
  - `certificate.rs` — the daily certificate schedule, the certificate state
    machine (invalid once per episode, expiry warnings at most daily), and
    reading the leaf certificate.
  - `engine.rs` — the uptime due rules, selection of due monitors, cycle
    bookkeeping and history retention.
  - `alerter.rs` — alert decisions, stale guards, message texts and the
    delivery state machine (stale guard per channel, bookkeeping only after
    a channel accepted).
  - `history.rs` — segments, uptime ratios, chart buckets and incidents;
    `history/laws.rs` states the structural laws of the timeline, the chart
    and the uptime reading.
  - `store.rs`, `sync.rs`, `slack.rs`, `secrets.rs`, `checker.rs` — the
    monitor model, input validation, sync-file merging, webhook rules,
    keychain answers and the HTTP verdicts.
  - `text.rs`, `time.rs`, `weburl.rs`, `error.rs` — text helpers, instants
    and their RFC 3339 text, URL parts, and the error type.
- `tests/` — tests of the library on concrete values.
- `app/` — the I/O around the library: SQLite, HTTP and TLS checks, the
  keychain, Slack delivery, the sync file and the scheduler loops.

Calls into outside crates (`chrono`, `url`, `x509-parser`) go through small
trusted wrappers whose contracts name what the call returns; everything
around them is verified.
