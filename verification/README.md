# meter_proxy

A TCP proxy that stands between a client and a server, forwards what each sends
to the other, and measures latency and throughput on the way. There are two of
them: one with a thread for each direction of each connection, and one that is
driven by events.

* `src/` is the library, written in Verus: every decision the proxies take and
  everything they count, as functions on plain values with proved contracts.
  * `proxy`, `pipe`, `link`, `clock`: the threaded proxy.
  * `async_proxy`, `transfer`, `io_error`: the event-driven proxy.
  * `meters`, `text`: what both measure and print.
  * `pipe_laws`, `transfer_laws`, `fleet_laws`, `async_fleet_laws`: what holds of
    a connection, and of all connections together, however they take turns.
  * `handle_laws`: what the handles of proxies share.
  * `sums`: sums and unions that the laws speak of.
* `app/` is ordinary Rust around it: sockets, threads, locks, the reactor, and
  the conversion of readings to floating point.
* `tests/` runs the library on concrete values.

Trusted are two outside functions: `ansi_term`'s `Colour::paint`, whose rendering
in red is stated exactly, and `time::precise_time_ns`, of whose result nothing is
claimed.
