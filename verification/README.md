# wayland_protocol

A verified core of a Wayland implementation, written in Verus.

- `src/protocol.rs`: argument types and arguments, signatures and how a list of
  arguments is checked against one, interface and message descriptions, protocol
  errors and their text.
- `src/server.rs`: the state of a server display: clients, the objects they own,
  the globals that the server advertises (to the clients that may see them), the
  requests it receives, and the events and global notices that wait to be
  written; with the laws that hold across calls (a disconnected client stays
  disconnected, a global is announced and withdrawn to exactly the connected
  clients).
- `src/event_queue.rs`: the rules by which a client event queue dispatches its
  events.
- `src/names.rs`, `src/scanner.rs`: what the protocol scanner decides when it
  turns a protocol description into Rust code (names, field types, docs,
  parsing and writing of each message), returned as plans.
- `src/text.rs`: decimal numbers, escaped bytes and string building.

`app/` holds what stands around the library: writing the scanner's plans out as
tokens with `quote`, the client event queue on a `futures-channel` channel, the
release of C argument arrays, and the sockets of a server (reading requests,
writing what the display flushes).
