# magi_api

The decision logic of the Magi API layer, written in Verus and verified:
request normalization, service descriptors, bridge diagnostics and their
cut-over checks, redaction of diagnostic text, the browser tools' argument
reading and result documents, pending-change projection, the runtime read
model (sessions, execution groups, tasks, recoveries), the dispatch plan of
a session action, and the App Server connection's handshake, event
subscriptions, error answers and the routing of `turn/start` requests.

- `src/` — the verified library. Each public function states what it
  returns in `ensures`; properties that span several calls are stated as
  public proof functions next to the functions they are about.
- `tests/` — tests that run the library on concrete values.
- `app/` — what the library cannot hold: screenshot cropping (floating
  point over decoded images) and the serde forms of the library's DTOs.

The server around this logic is not part of the crate: the session, task
and workspace stores, the event bus, the browser authority and Host, the
bridge transports and the WebSocket plumbing. The library takes what they
hold as plain values (the facts of a call, a sidecar's export, what a
snapshot ledger read) and returns the decision, the state or the document;
performing the reads, writes and sends is left to that server.

The library calls `serde_json` (parsing and printing JSON documents) and
`sha2` (screenshot digests) through small trusted wrappers whose contracts
are stated in `src/json.rs` and `src/browser.rs`.
