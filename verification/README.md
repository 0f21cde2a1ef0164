# tinymcp

A client for servers that speak the Model Context Protocol: browsing catalogs,
installing servers, connecting, supervising and signing in to them.

`src/` is the library. It holds every decision of the client as functions from
plain values to plain values, with contracts that Verus proves. Operations that
need a database, a socket or a subprocess are sequences of steps: each step says
what it wants done, and the answer leads to the next.

- `registry/supervisor`: keeping installed servers connected. `model.rs` says
  what a cycle means, `types.rs` runs one, `laws.rs` holds what is true of all.
- `registry/ops`: installing, configuring, connecting and calling servers.
  `host.rs` models the store and the sessions that the laws speak of.
- `registry/sources`: the catalogs, and what the official one's rows become.
- `registry/oauth`: detection, proof keys, pending sign-ins, token refresh.
- `transport/http`: event streams, challenges, statuses.
- `tinybus_module`: what a loadable module offers a host.
- `outside.rs`: everything that is taken on trust of other crates and of the
  standard library.

`tests/` runs the library on concrete values, against hosts kept in memory.
`app/` is ordinary Rust around the library: it performs what the steps ask for.
