# brawler_server

The bounded lobby and queue authority of the brawler game server, verified with Verus.

- `src/queue/` — the queue authority: admission, cancellation, retries and rate limits
  (`model.rs` states every operation as a transition of an abstract state, `state.rs` implements
  it), the structural consistency every operation keeps (`consistency.rs`), and the laws across
  operations (`laws.rs`).
- `src/lobby/` — the lobby worker: authenticated sessions, the supervisor allocation transaction
  and its control frames, the product request of a reserved roster, practice matches against
  bots, the handoff of a forming match (forming, grant delivery, expiry, cancellation,
  dissolution, lost players), the per-frame application of queue messages, and their laws.
- `src/operator_catalog.rs` — fail-closed resolution of the operator's game-type catalog: the
  file's size and encoding, each game type's topology, timing, objective and maps, and sealing
  the result with SHA-256 revisions of the advertisement and of the policy material.
- `src/catalog.rs`, `src/wire.rs`, `src/ids.rs`, `src/session.rs` — the resolved catalog, the
  queue's wire values and the identities they share.
- `src/admission.rs` — match-worker manifests: the roster a worker accepts and which
  participant an authenticated client is.
- `src/balance_lab/` — the balance lab's operator views (the admitted practice roster, editor
  paths), the decisions of its HTTP surface (routes, command admission, body limits, asset
  paths), the steps of an apply or restore transaction, and the version ladder of persisted
  tuning.
- `src/decimal.rs` — decimal text of unsigned integers.
- `app/` — host-side pieces: entropy-backed identity sources, JSON shapes, reading the
  operator catalog file, and the balance lab's `tiny_http` plumbing.
- `tests/` — scenario tests of the library.
