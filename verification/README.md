# anchorkit

Request tracing and session quotas for anchor services, verified with Verus.

- `src/request_context.rs`: trace context and its way through sub-operations,
  HTTP headers, webhook payloads, logs and audit entries.
- `src/session_quota.rs`, `src/quota_ledger.rs`: per-session operation quotas,
  on the quota entries of contract storage held as plain values.
- `src/text.rs`: lines, words, prefixes and decimal numbers over sequences of
  characters.
- `src/trace_laws.rs`, `src/quota_laws.rs`: what holds of the library as a
  whole, as proof functions.
- `app/`: the same quota enforcement on a Soroban ledger. It loads entries from
  contract storage, calls the library, and carries out the actions that the
  library records.
