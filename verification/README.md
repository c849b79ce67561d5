# rustpbx control plane, verified

The logic of the rustpbx control plane as a Verus library: each function
states its behaviour in `requires`/`ensures` and Verus proves it.

## Layout

- `src/raft/` — the replicated worker registry. `types.rs` holds the records
  and commands, `state_machine.rs` the deterministic state machine (`step`
  is its model; `RegistryState::apply` is proved equal to it), `registry.rs`
  worker selection, `affinity.rs`, `contacts.rs` and `conflicts.rs` the
  ownership of extension Contacts, `snapshot.rs` snapshots of the registry,
  `network.rs` peer connections of a single voter, and `laws.rs` the
  properties that span commands (caps, idempotence, reaping, affinity).
- `src/worker_registry.rs` — a node-local table of media workers and the
  choice of the least-loaded healthy one.
- `src/control_plane.rs` — what the worker-facing service decides: affinity
  keys, Contact `q` values, call-slot caps and replies.
- `src/access.rs`, `src/sessions.rs` — who may do what in the admin API,
  login throttling, bearer sessions.
- `src/tenants.rs`, `src/tenant_users.rs`, `src/dids.rs`, `src/audit.rs`,
  `src/store.rs`, `src/settings.rs` — tenants and their domains, tenant
  accounts, phone numbers, audit queries, admin records and scoping,
  platform settings. `src/store/sql.rs` gives the SQL statement (text and
  bound values) of every read and write of the store.
- `src/migration.rs` — the order of the schema migrations and the steps of
  the column migrations.
- `src/cloud_api.rs` — cloud console sessions: signed tokens and cookies.
- `src/internal.rs`, `src/routing.rs`, `src/policy.rs`, `src/stun.rs`,
  `src/config.rs` — the Edge-to-Worker call context and configuration types.
- `src/text.rs`, `src/sorted_map.rs`, `src/seqs.rs` — strings, a sorted
  string-keyed map, and sequence facts the proofs share.
- `app/` — the process around the library: configuration file, timers.
- `tests/` — scenarios run against the compiled library.

Calls into bcrypt, argon2, hmac/sha2, base64, serde_json, uuid, chrono and
dashmap go through small trusted wrappers whose contracts name or bound their
results; every other function is verified.
