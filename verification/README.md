# claude_usage

The logic of a menu-bar / system-tray app that shows the session (5 hour),
weekly (7 day) and overage rate limits of an account, and a local breakdown of
token usage read from session logs, proved with Verus.

## Layout

- `src/` — the verified library.
  - `text.rs`: white space and trimming, line splitting, substring search,
    decimal formatting.
  - `json.rs`: the JSON document model, its parser (through `serde_json`) and
    member access.
  - `clock.rs`: RFC 3339 timestamps (through `chrono`) and the present time.
  - `token.rs`: finding the access token in a credentials blob, and choosing
    between the keychain and the credentials file.
  - `usage.rs`: the usage data, built from a reply's rate-limit headers, kept
    across failed polls, and the tray title.
  - `str_map.rs`: a string-keyed map kept as a list of distinct keys.
  - `analytics.rs`: the analytics over session logs, as a specification of what
    each log line counts for and a verified implementation of it, with the
    laws of the counting.
  - `totals.rs`: why the analytics' totals agree: output tokens summed over
    projects, branches, days and hours are the same (modulo 2^64).
  - `window.rs`: a wider window counts no less, for every project, branch,
    hour, day and tool, when no token count is negative and no counter of the
    wider window's analytics passes `i64::MAX` as it is summed.
  - `cache.rs`: the five-minute cache of computed analytics.
  - `tray.rs`: the tray icon's pixels.
- `app/` — the desktop shell: windows, tray, commands, the polling loop, and the
  file, keychain and network I/O; it hands plain values to the library.
- `tests/` — tests of the library on concrete values.

## Arithmetic

Token sums wrap on overflow, as `i64` addition does in a release build, and the
analytics window is computed with the same wrapping multiplication.
