# pod_net

Verified core of a server-authoritative game networking layer. The library
(`src/`) is written in Verus: every function carries a contract that Verus
proves, and the laws the library promises stand as proof functions.

- `authority`, `protocol`, `decimal`, `text` — configuration from the
  environment, bind targets, session identifiers, number parsing/rendering.
- `session`, `inbound`, `shard`, `transport`, `server`, `lifecycle` — the
  server's client sessions (action admission, the action window, resume by
  reconnect token, inactivity timeout), inbound message handling, the shard
  state and its loop steps (connect, pruning, recovery delivery, broadcast
  bookkeeping), transport summaries, per-tick broadcast decisions and the
  shard lifecycle.
- `history`, `prediction`, `recovery`, `delta`, `entity`, `digest`,
  `interest`, `rollups` — snapshot history, client prediction and recovery,
  entity-set deltas (computing and applying them, with the round trip
  proved), entity classification, digest folding, interest
  filtering and rollup grouping.
- `subscriptions`, `stdb_adapter`, `remote_agent`, `stdb_poll` — the SpacetimeDB adapter's
  subscription manager, SDK action plans, topology checks and the remote
  agent's submission gate and status, and the client's event-pump decisions.
- `ops`, `benchmark`, `client` — operations document history, the transport
  benchmark aggregate, client errors and reconnect backoff.

`app/` holds the host side: process environment, the operations stream with
its archive file, serialisable report copies and the floating-point render
clock, and an in-process shard host that drives the verified shard state.
`tests/` exercises the library.
