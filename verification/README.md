# hclient_native

The decisions of a native HTTP client transport, with their behaviour stated in
contracts and proved by Verus: which attempts are under way and what they come
to, which connection is used again and for how long it is kept, what an
`Alt-Svc` or HTTPS record is believed to say, which protocol is spoken, what a
bound on a wait leaves of another, and what each failure says.

- `src/` is the library. It computes and never waits. What takes several steps
  (a race between addresses, the making of a connection, a tunnel through a
  proxy, a request from the pool to its response, a keep-alive, an HTTP/3
  exchange) is a machine: it is told what happened and says what to do next.
- `app/` performs what the machines ask for on sockets, clocks, resolvers, TLS
  backends and the HTTP crates.
- `tests/` runs the library on concrete values.

The public proof functions named `law_*` state what holds of the library as a
whole. What is trusted rather than proved are the few calls into the standard
library, `http` and `web-time`; each says in its doc comment what is believed
of it.
