# rustci_core

The verified core of a CI control plane: leader election, failover, cluster
coordination, job queues and schedulers (local and cluster-aware), failure
recovery, idempotent job execution, state snapshots, health and metrics,
and the infrastructure patterns beneath them (locks, rate limits, circuit
breakers, retries, bulkheads, caches, an event demultiplexer, a
dependency-injection book).

- `src/` is the library. Every function carries a contract that Verus
  proves; the state of each component is a plain value with a
  well-formedness predicate, and times are milliseconds passed in by the
  caller.  Each `_at` function has a twin that reads the clock; the twin
  states what the `_at` function states for some time read, where that
  time decides the result, and less only where a part depends on the time
  (when an entry was made, how long something took).
- `src/platform.rs` and the functions marked `external_body` are the only
  calls into outside crates: the clock, random numbers and identifiers,
  hashing, and the concurrent maps of `dashmap`.  Numbers kept as
  floating-point values elsewhere (rates, averages, thresholds) are whole
  numbers here, in percent or milliseconds.
- `app/` is the asynchronous shell: locks around the library's values, the
  loops that sleep and wait (for a resource lock, for expired locks, for
  jobs and timers), the `moka` tier in front of the cache, disk
  I/O for snapshots, floating-point metric comparisons and serialisable
  copies of library types.
- `tests/` runs the library on concrete values.
