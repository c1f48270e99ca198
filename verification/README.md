# rsipstack

A SIP stack (RFC 3261) whose core is written in Verus: the transaction and
dialog state machines, the SIP timers, transaction keys, and the rules by
which requests, responses and ACKs are built, each with a contract proved by
Verus. Parsing and display of individual SIP headers, digest computation and
randomness come from the `rsip` and `rand` crates, behind small trusted
wrappers whose contracts name their results.

## Layout

- `src/` — the verified library.
  - `message.rs`, `uri.rs`, `text.rs` — the plain model of SIP messages,
    URIs and text the contracts speak of.
  - `header_values.rs`, `auth_values.rs` — the trusted wrappers around
    `rsip`'s header parsing and digest authentication.
  - `contact.rs`, `rsip_ext.rs` — the lenient Contact grammar and helpers
    on responses and requests (reason, remote target, destination).
  - `transaction/` — timers, keys, the endpoint core and the transaction
    state machine.
  - `dialog/` — dialog identifiers, dialog state, client and server INVITE
    dialogs, the dialog table, authentication and registration.
  - `bench.rs` — the decisions of the benchmark user agent.
- `tests/` — tests run against the compiled library.
- `app/` — the I/O around the library: a UDP transport, the async endpoint
  and transaction runners, the dialog layer on the network, registration
  with DNS lookup, and the benchmark user agent.

Operations that wait for the network are split: the library decides (what to
send, which state to enter, which timer to start), and `app/` performs the
sending and waiting and hands back what happened.
