# kotatsu-realtime

The realtime core of the kotatsu game backend, written in Verus. Verus proves the contracts
of the functions in `src/`, except a few small trusted wrappers around the system clock and
the `uuid`, `rand` and `url` crates, whose contracts are assumed; the clock readers `now_unix`
and `now_ms` promise nothing about the time they read.

## Layout

- `src/` — the verified library.
  - `state`, `table`, `keys` — rooms, players and tickets; a string-keyed map and the byte
    order of its keys.
  - `params`, `player`, `ticket`, `room`, `layout` — parameter changes with their cooldown,
    registration within room capacity, single-use join tickets, starting a match, stage
    progress, lobby cleanup, message recipients.
  - `control` — the matchmaking operations: create, list, get, start and delete rooms, issue
    join tickets.
  - `session` — the UDP side: which address joined as which player, and what each client
    message leads to; joining over a reliable stream.
  - `protocol` — packet framing (one type byte, then JSON) and JSON lines.
  - `client`, `numbers`, `text`, `probe` — the latency tester's settings and probe, and the
    test clients' decisions.
  - `clock`, `ids` — the system clock and UUIDs, behind small trusted wrappers.
- `tests/` — tests of the library, run against the real outside crates.
- `app/` — the programs around the library (`server`, `load-test`, `remote-rtt`,
  `quic-prototype` subcommands): sockets, HTTP, JSON, timers and floating point.
