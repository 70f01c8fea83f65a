# smiths_sip

SIP signalling (RFC 3261), verified with Verus.

The library in `src/` decides and does no input or output. Whatever arrives, a
datagram, a timer, an answer from the media plane, is handed to a function that
updates its state and returns what is to be done next. Every function states in
its contract what it returns and how the state changes, and the properties that
hold across functions (a transaction sends one final answer; an ended dialog
leaves nothing behind; an accepted request cannot be replayed) are stated and
proved as public proof functions beside them.

- `src/txn`: the four transaction machines, the table that runs them, and the
  dialog machine.
- `src/uas`: answering calls. `src/uas/server/laws.rs` holds what holds of the
  server as a whole.
- `src/uac`: placing calls.
- `src/auth`: digest authentication, accounts, contact bindings, and the
  decisions of the stores behind them.
- `src/transport`: framing, connection limits, proxy handshakes.
- `src/webrtc.rs`, `src/webtransport.rs`: signalling frames of browsers.
- `src/rate_limit.rs`, `src/response_router.rs`, `src/snapshot.rs`: the smaller
  parts.
- `src/text.rs`, `src/table.rs`, `src/pair_map.rs`, `src/clock.rs`,
  `src/record.rs`: what the rest is built from.

Calls into other crates (hashing, hex, base64, random numbers, the SIP parser,
the concurrent hash map) stand behind small functions whose contracts are
trusted; each says which function it calls and what it claims of it.

`app/` is ordinary Rust that runs the library on Tokio: sockets, timers, one
ordered worker per call, SQLite, HTTP and files. `tests/` runs the library on
concrete values.
