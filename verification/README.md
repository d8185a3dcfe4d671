# dytallix-fast-node

The deterministic rules of a Dytallix node, verified with Verus: genesis
monetary initialization, the mempool's admission and ordering rules and its
queue, ordinary and governance (v3) fee metering and settlement, ordinary
authority preparation, the staged state a fee plan reads, the grant and
transfer effects of ordinary actions and the ordered action loop with its
rollback, reservation requests and the admission
queue's binding, and the logical records that metering measures.

Layout:

- `src/` — the verified library. Each module states its rules as spec
  functions and proves the executable code against them; the `laws` module
  and the `law_*` proof functions of other modules state properties that span
  several calls.
- `tests/` — scenarios run against the compiled library.
- `app/` — the node entry point: environment, files and the metrics exporter
  handle, which hand the library plain values.

Signature verification, canonical encodings and storage belong to other
components; the library takes their results as plain values.
