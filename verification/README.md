# vitalis

The survival layer beneath an autonomous agent, with its core verified in
Verus. The library's own functions under `src/` carry contracts that Verus
proves. The calls into outside crates (postcard, ring, reed-solomon-erasure,
hex's decoder, rand) and the clock are made by small wrappers marked
`#[verifier::external_body]`, whose contracts state what those crates
document and are trusted, not proved; each wrapper's doc comment says what
it claims.

## Layout

- `src/` — the verified library.
  - `types`, `error`, `events`, `text`: identities, resource kinds, threats,
    capabilities, profiles, the unified error.
  - `adapt`, `sandbox`: the bounded self-improvement engine (sandbox gate,
    rate limit, kill switch, audited rollback) and capability sandboxes.
  - `signal`, `classify`, `defender`, `integrity`, `pins`, `harden`: threat
    classification, Ed25519 checkpoint seals, trust-on-first-use key pins.
  - `wire`, `checkpoint`, `shards`, `policy`, `repaudit`, `replicator`: the
    postcard wire format, the checkpoint envelope, erasure-coded shards,
    the copy limit and the replication audit.
  - `barter`, `trades`, `hearsay`: signed barter messages, the trade book
    (settle-once, counterparty binding, per-peer offer cap, expiry) and
    reputation hearsay (one claim per witness, bounded hops, freshness).
  - `reflect`, `drive`, `sense`, `limiter`, `knowledge`, `identity`,
    `clock`, `traits`: bounded reflection queues and calibration counts, the
    survival loop's immune response, peer filtering, limiter outcomes,
    versioned knowledge records.
- `tests/` — tests of the library.
- `app/` — the `vitalis-drive` program: command line, configuration, logging,
  storage on redb, host probing, and everything computed in floating point
  (resource ledgers, throttling, reputation scores, predictions).
