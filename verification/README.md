# HyperTide

Centralized version control for large binary assets: a server that keeps
branches, changesets, locks, API keys, sessions and an audit trail, and the
`ht` command-line client.

## Layout

- `src/` — the verified library. Its public functions carry contracts that
  Verus proves; the calls into outside crates stand behind small trusted
  wrappers, each with the contract it is believed to meet. The main parts:
  - `versioning/` — repositories, branches, changesets, history, rollback
    plans and snapshots, with the laws that tie them together (`laws.rs`),
    and the rows that the database keeps of them (`persist.rs`);
  - `lock.rs`, `auth.rs`, `session.rs` — file locks with leases, API keys
    and permissions, agent sessions and their checkpoints;
  - `manifest.rs`, `storage.rs`, `digest.rs`, `path.rs` — chunk manifests
    and their Merkle roots, the layout of the content-addressed store;
  - `witness.rs`, `high_risk.rs`, `audit.rs`, `replay.rs`, `compliance.rs`
    — witness receipts, signed high-risk requests, the audit hash chain,
    event replay checks and retention settings;
  - `handlers.rs`, `api.rs`, `requests.rs`, `server.rs` — what the HTTP
    routes decide, and the shapes of their requests and answers;
  - `cli/` — the client's records, its staging area and status, token
    renewal, chunked uploads, checkpoints and where it keeps its state.
- `tests/` — tests of the library on concrete values.
- `app/` — the program around the library: the axum server with its
  PostgreSQL and disk I/O, the clap command line with its HTTP calls, the
  serde forms of the library's records, and signed tokens.

Run as `ht`, the program is the client; under any other name it serves.
