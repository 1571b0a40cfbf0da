# edge-gateway

A TLS gateway in front of backends on the same host. It terminates TLS for every certificate in a
directory, relays WebSockets (HTTP/1.1 upgrades and HTTP/2 extended CONNECT) to WebSocket or TCP
backends, passes gRPC calls on to HTTP/2 backends, and orders and renews its certificates itself.

The decisions of the gateway are a library whose behaviour is stated in contracts and proved by
Verus. Everything that reads, writes, waits or logs stands around it.

- `src/` is the library. `config` checks the configuration file, `routes` and `grpc` hold the
  tables of routes, `tls` finds and serves certificates, `acme` orders and renews them, `gateway`
  takes connections, handshakes and relays from step to step, `fallback` prepares requests for an
  upstream web server, `observability` counts, and `http`, `net`, `text`, `time`, `order` and
  `paths` are what the others are made of. Functions whose names start with `law_` state what holds
  of several functions together.
- `tests/` runs the library on concrete values, with the outside crates linked.
- `app/` is the program: sockets, files, timers and the event loops that drive the state machines
  of the library.

Paths are Unix paths in UTF-8.
