# netlab

Small network programming tools whose decisions are proved correct with
Verus.

- `src/` is the verified library:
  - `text` — splitting, trimming, decimal numbers, UTF-8 decoding;
  - `baby` — the Manchester Baby assembler and its listing;
  - `chat` — the UDP chatroom: the server's user table and replies, the
    client's commands and reading of server datagrams, and the laws that tie
    them together;
  - `net` — IP and socket addresses as plain values;
  - `flows` — per-flow counters and the report of the heaviest flows;
  - `packet` — fixed-offset reading of captured frames, Ethernet II frames,
    protocol counters, interface lookup;
  - `headers` — frames decoded with `etherparse`, and the segment reports and
    option counters taken from them;
  - `stats` — running totals of the option counters;
  - `services` — verbosity, capture source, fortunes, echo, lookups, byte
    order.
- `app/` is the command-line front end (`netlab <tool>`): sockets, capture,
  files, threads, timers and JSON.
- `tests/` runs the library on concrete values.
