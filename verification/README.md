# ddts_server

A daemon that starts and stops DDNet game servers on request of its
clients. This crate is its verified core, written in Verus:

- `state`: the slot table of running game servers, with the counter of
  used slots; adding, removing, free-slot and port lookups, statistics.
- `handlers`: what is decided for each request: a free port, a password,
  the first free slot, the log file, pipe and settings line of a new
  server, and the response that is sent back.
- `protocol`: requests and responses as values.
- `wire`: requests decoded from, and responses encoded to, protocol
  buffers, record by record through `protobuf`'s coded streams.
- `servers_handler`: bookkeeping of servers launched directly, by
  identifier.
- `config`, `errors`, `application`, `random`, `text`, `start`,
  `shutdown`: environment names, error texts, the allow list and the
  connection loop's next step, random choices, decimal text.

`app/` holds the daemon itself: configuration files, the TCP listener,
process launching, the pipes to the game servers and the machine load.
It routes each request to its handler by action; the handlers take their
decisions from the library.
