# service_gateway

A gateway for services that register the commands they support. A message that
names no target is sent to a healthy service that supports its command, each of
them in turn; services that cannot be reached are passed over until a health
check finds them healthy again.

- `src/` is the library, verified with Verus. It holds the gateway's state and
  makes its decisions. `model.rs` says what a router is and what each event
  changes, `router.rs` and `gateway.rs` implement it, and `laws.rs` proves what
  holds of it as a whole. `tables.rs`, `chance.rs` and `metadata.rs` hold the
  calls into other crates, with the contracts that are taken on trust.
- `app/` is the gRPC server around the library: connections, timers and streams.
- `tests/` are the library's tests.
