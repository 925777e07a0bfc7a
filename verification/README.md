# zk_circuit_fuzzer

A fuzzing toolkit for zero-knowledge circuits, written in Verus: the circuit
models, constraint extraction and checking, coverage tracking, mutation and
input generation, the analysis cache, the cluster bookkeeping, the target
descriptions and the report escaping are verified against their contracts.

- `src/` — the verified library. Each module states its model as spec
  functions; the laws that relate several operations are public proof
  functions (`lemma_*`).
- `tests/` — tests of the library on concrete values.
- `app/` — the `zk-fuzzer` command and what cannot be verified: floating-point
  scores and rates, the web dashboard, the Z3-backed solver, threads and
  file access.
