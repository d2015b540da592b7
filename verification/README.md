# tyra

The decision logic of a typed actor system, verified with Verus: what its
routers route where, how its system state admits, releases and stops actors,
how wake-ups are deduplicated, how thread pools are sized and what happens to
an actor after a batch of messages, how a cluster node is set up, and how
cluster addresses, listener tokens, stream events and network workers are
handled.

- `src/` is the verified library. `actor/` holds addresses and an address
  map, `system/` the system state and status, the wake-up, thread-pool, delay
  and cluster logic, `routers/` the round-robin, least-message and sharded
  routers, `net/` and `network/` the network configuration, the manager's
  poll-loop bookkeeping and the worker logic, `wrapper/` the actor wrappers.
- `tests/` runs the library on concrete values.
- `app/` is the running system around it: threads, channels, sockets, name
  lookups and signals, a cluster node that runs the sharded router in front
  of its network workers, and the delay actors behind a round-robin router.
  Each of its decisions is a call into the library.
