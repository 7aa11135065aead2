# pnos_sdk

Networking for PandaNetOS components, with its decisions proved in Verus.

- `src/` is the library. Apart from reading the clocks and drawing random numbers
  it does no input or output of its own: it builds and reads packets, plans what to
  send and when, keeps tables and counts, and says what to do after each event.
  - `traversal/`: STUN, NAT-PMP, PCP, hole punching, IPv6, mapping state and metrics
  - `discovery/`: multicast announcements, brokers, the cache of known nodes
  - `transport/`, `connector`, `strategy`, `net_agent`, `dns`: reaching a node
  - `comm/`: registration, heartbeats, calls, events, health, authentication
  - `bench/`: load scenarios, pace, metrics and reports
  - `addr`, `bytes`, `numbers`, `sorting`, `string_map`, `text`, `time`, `types`:
    what the others share
- `app/` is the program around it: sockets, HTTP, files, timers and everything
  that is floating point.
- `tests/` run the library from outside.

Each type with an invariant has a `wf` spec function. Public proof functions named
`lemma_..` state what holds across several calls. Functions marked
`#[verifier::external_body]` and `assume_specification` items hold calls into other
crates; their doc comments say what is taken on trust.
