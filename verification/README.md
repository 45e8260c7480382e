# svr

A framed client/server message endpoint. Messages travel as a four-byte
big-endian length followed by a protobuf-encoded body; the server routes each
message to a handler by its id and answers with a header and a body; the client
matches answers to requests by sequence number.

- `src/` is the verified library: the wire codec (`codec`, over the `bytes`
  buffers declared in `buffers`), headers (`header`), errors and the header
  that reports them (`errors`), the server's per-message decisions
  (`protocol`), the client's reading of replies (`client`), configuration and
  logging rules (`cfg`, `trace`), the handler naming rules (`naming`) and the
  sample handlers (`handlers`).
- `app/` is the program around it: sockets, tasks, protobuf and serde forms of
  the library's types, the configuration store, logger setup and database pools.
- `tests/` exercises the library.
