# agm_proxy

The decisions of a proxy that serves the Gemini protocol from a pool of upstream accounts, written
in Verus: every function states what it returns, and the verifier proves it.

- `src/pool_retry.rs` classifies upstream failures and keeps the record of which accounts failed
  and how; `src/records.rs` proves what holds of every such record.
- `src/redaction.rs` frees errors of request bodies, credentials and secrets.
- `src/common.rs` chooses how long to wait after a failure and when to go on to another account.
- `src/failover.rs` is the state of one request on its way through the pool; `src/runs.rs` proves
  what holds of a request from its first event to its last.
- `src/gemini.rs` and `src/models.rs` read requests and put replies together.
- `src/sse.rs` cuts streams of server-sent events into lines and frames the events passed on.
- `src/json.rs`, `src/text.rs` and `src/accounts.rs` are the data that the others work on.

`app/` holds the HTTP handlers: the calls to the pool and the upstream, sleeping, streaming and
logging. `tests/` runs the library with the crates that it calls: `serde_json`, `regex`, `axum`'s
HTTP types and `bytes`.
