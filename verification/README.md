# fry_tftp_server

A TFTP server, with the blksize, timeout, tsize and windowsize options,
whose logic is a library verified with Verus.

## Layout

- `src/tftp/` — the server's logic: packet parsing and serialisation
  (`protocol/`), the read and write transfer state machines and option
  negotiation (`session/`), request path checks and virtual roots (`fs/`),
  configuration defaults, overrides and size parsing (`config/`), request
  admission (`server.rs`), the buffer pool, control-socket commands and the
  log buffer. Each public function states its result in its contract, and
  the properties that span functions (a serialised packet parses back, a
  file's blocks reassemble it, a duplicate ACK changes nothing, ...) are
  proof functions beside the code they speak of.
- `src/gui/` and `src/tui/` — the state and decisions behind the two user
  interfaces: form state, sorting, filtering, formatting and key handling.
- `app/` — the program around the library: command line, sockets, files,
  timers, signals and logging. It performs what the library decides.
- `tests/` — tests of the library on concrete values.
