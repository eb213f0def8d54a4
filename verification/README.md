# boomnet

A service that manages the lifecycle of endpoints, which are typically network connections. It
resolves their hosts, lets them connect one at a time with a pause in between, polls the active ones
in round-robin order, ends connections that have outlived their time, and brings failed ones back
under the handle that they were registered with.

What the service does is stated in contracts and proved by Verus.

- `src/service/node.rs` and `slots.rs`: token-indexed storage of active endpoints
- `src/service/mod.rs`: the service, its registration and its settings
- `src/service/poll.rs` and `poll_with_context.rs`: polling, and access to active endpoints
- `src/service/model.rs`: what a service is made of, and what each of its steps does to it
- `src/service/outcome.rs`: what polling may end in, whatever the endpoints do
- `src/service/storage_laws.rs`, `service_laws.rs`, `poll_laws.rs`, `timeout_laws.rs` and
  `run_laws.rs`: what holds of several steps
- `src/service/endpoint.rs`, `select.rs`, `dns.rs`, `time.rs` and `src/stream.rs`: what users provide
- `src/io.rs` and `src/net.rs`: failures and addresses as plain values
- `app/`: the system clock, the resolver of the operating system, and conversions

A type that implements `Selector` also implements `Selects` for the endpoints that it serves; an
empty implementation does.
