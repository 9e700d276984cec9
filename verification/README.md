# kvbm

The verified core of a multi-tier KV block manager: the decisions that a
KV-cache connector, its engine and its discovery hub make, written in Rust and
proved with Verus.

- `src/tokens.rs`, `src/assignment.rs` - token sequences, lineage hashes, and the
  alignment of block ids with them.
- `src/connector/` - the slot of a request and its transactions, the leader that
  owns the slots, and the conditional-disaggregation dispatcher in front of it.
- `src/engine/` - the instance leader: searches, sessions, pulls from peers, and
  the topology snapshot.
- `src/hub/` - the hub's protocol and the registries behind it.
- `src/logical.rs` - block allocators.
- `app/` - the runtime around the core: wire types, routes, locks, loops.

Every function of `src/` states what it returns and changes. What hashing, URL
parsing, id formatting and the concurrent maps of outside crates do is stated
once, next to the call. Functions named `law_*` state what holds across calls.
