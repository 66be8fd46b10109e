# swarm_transport

The transport core of a Chord swarm, written and verified in Verus.

A node of the swarm keeps one connection per peer, sends frames over it by class, admits sends
within bounded capacity, reroutes refused sends and hands stored entries over to their owners.
`src/` holds the decisions: tables and state machines over plain values, each function with a
contract, and the laws that tie them together as public proof functions (`law_...`). `app/` is the
asynchronous shell: locks, timers, tasks and physical connections. `tests/` runs the library.

| Modules | What they decide |
|---|---|
| `registry`, `pending`, `transport`, `retention`, `liveness`, `readiness` | which generation owns a peer, which peers are routable, which connections are kept |
| `reserved_capacity`, `capacity`, `schedulers`, `link_state` | what a peer and the node may hold of outbound capacity |
| `queue`, `lane_run`, `mailbox`, `worker`, `transfer` | the order in which a peer's transfers are served |
| `admission`, `delivery`, `payload_send`, `link_control` | what becomes of a frame and of a payload |
| `rerouting`, `rerouting_progress`, `detached_effect` | when a refused send is made again, why that ends, and why it has one effect at most |
| `storage_lookup`, `storage_sync` | what is repaired, handed over and acknowledged |
| `event_delivery`, `measurement`, `frame_ledger` | the order of callbacks, counts of outcomes and frames |
| `did`, `error`, `class`, `clock`, `protection`, `ordered_map`, `stable_order` | what the others build on |
