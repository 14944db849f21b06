# alice-registry

Core logic of the ALICE artifact registry, with machine-checked contracts and proofs.

- `src/hash.rs`: 64-bit FNV-1a, with proofs that hashing extends byte by byte,
  that a common suffix keeps distinct hashes distinct, and that changing one
  byte always changes the hash.
- `src/metrics.rs`: the 35% compressed-size estimate and the diff similarity
  (in half-percent units, 20% floor).
- `src/text.rs`: decimal and fixed-width digit rendering, `:`-joined keys, and
  the first white-space separated word of a query.
- `src/registry.rs`: operation counters and what push, pull, diff and search
  report for a request.
- `app/`: the HTTP server (axum), UUIDs, timing, the floating-point parts of
  the responses, and the token-bucket rate limiter of the gateway.
