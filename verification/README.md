# polyphonic

A residency ledger and placement primitives for a compute orchestrator that schedules
LLM inference, serverless functions and long-running services against one shared memory
budget. The library is written in Verus: its functions carry contracts that Verus proves,
except for three trusted items whose contracts are believed rather than proved, each
documented where it stands:

- `blake3_chained` in `src/blob.rs`, which calls the `blake3` crate, and `blake3_hash`
  beside it, the name its contract gives the digest without stating it;
- `block_offset` in `src/store.rs`, which asks std for a pointer's alignment offset and
  claims nothing of the answer.

## Layout

- `src/blob.rs` — blob identities (BLAKE3 chains), classes and metadata.
- `src/own.rs` — which side of the orchestrator/engine boundary answers a capacity or an
  allocation question about a class in a tier, with the table's laws.
- `src/cache.rs` — per-class quotas (floors, soft limits, priority bands), a pool's byte
  accounting, what it can reclaim, the next step of an admission that must make room, in
  which order it may preempt other classes and which victim keeps every floor, whether
  a node can admit a set of needs, request costs, and the census of engine-authority
  operations.
- `src/engine.rs` — a continuous-batching decode engine: slots, queueing and step cost.
- `src/oracle.rs` — the regret decomposition and the acquisition regime of a request.
- `src/machine.rs`, `src/topo.rs` — placement policies, the rendezvous hash that pins a
  session to a domain, the decode pool, and taking a domain out of service.
- `src/work.rs`, `src/flow.rs` — the workload's state shapes, fan-outs, the reference
  positions an offline eviction baseline needs, and what a flow still has to materialise.
- `src/arms.rs` — one experiment arm request by request: which requests a single ledger
  serves, which upstream stages flow gating refuses, and the tally of what was served.
- `src/boundary.rs` — the boundaries a decision can cross, and how repeated measurements of
  them are folded into a best and a worst.
- `src/deck.rs` — navigation of the slide deck that presents the project.
- `src/store.rs`, `src/plat.rs` — aligned buffers, the spill file's slot allocator and its
  byte and I/O counters, and how the host's kernel answers are read.
- `app/` — the command-line program: the tier pools and node hierarchy, whose eviction
  ranking is floating point, the multi-node machine whose placement score is floating
  point, the boundary measurements, and everything that touches files.
- `tests/` — scenarios on concrete values.
