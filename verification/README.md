# ctxbroker

Broker → agent-context bridge: messages published to NATS JetStream or
RabbitMQ are drained into a local SQLite claim/lease ledger, from which an
agent hook claims them (oldest first, under a lease) and acknowledges them
exactly once.

## Layout

- `src/` — the verified library (Verus).
  - `store.rs` — the inbox ledger: staging (a redelivered id is a no-op),
    claiming the oldest claimable message under a lease, acknowledging only
    by the lease holder before the lease runs out; each with an exact
    contract over the ledger's rows, and each moving rows only forward.
  - `laws.rs` — properties across operations: redelivery is a no-op,
    delivery is final (also over any run of operations), a live lease blocks
    other claims, an expired lease is reclaimable and its acknowledgement
    refused, a former holder's acknowledgement is refused, a claim then the
    claimant's acknowledgement delivers, a second acknowledgement is refused,
    the claim is determined, and the status/claim fields stay consistent.
  - `broker.rs` — what happens to a pulled message (its id, its decoded
    body), the JetStream stream name, and the drain bookkeeping that decides
    ack or nack.
  - `cli.rs` — which broker a set of flags selects, the send plan (publish
    or stage locally), local message ids.
  - `clock.rs` — the wall clock in nanoseconds.
  - `text.rs` — decimal rendering and byte-wise text order.
  - `mcp.rs` — the `send_message` tool's parameters.
- `app/` — the program: command line, SQLite persistence, broker
  connections, MCP server. Each ledger operation runs in an immediate
  SQLite transaction that loads the rows it depends on, lets `store::Store`
  decide, and writes back the row that changed.
- `tests/` — tests of the library on concrete values.
