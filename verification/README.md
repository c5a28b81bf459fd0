# wal_sync

Follows the write-ahead log of a PostgreSQL database over logical replication and hands each row
change to the handler of its table. The library is written in Verus: what each function returns
and changes is stated in its contract and proved.

- `src/` is the verified library.
  - `wal_subscriber.rs`: the subscriber, its configuration, the queries that set up replication,
    and what follows from the replies.
  - `frame.rs`, `pgoutput.rs`, `wire.rs`: frames of the stream, messages of the `pgoutput` plugin,
    and the bytes they are made of.
  - `tuple_writer.rs`, `tuple_parser.rs`: rows as tuple bytes, and back.
  - `wal_event.rs`, `error.rs`, `text.rs`: events, errors and text.
  - `encoding.rs`, `cut_messages.rs`, `laws.rs`: what holds across these: messages and rows are
    read back as they were written, parts of relation and row messages are never taken for
    messages, a stream has the effect of the log that its frames carry, and each row change
    reaches the one handler that is registered for its table. How often a handler is called is not
    part of the contracts. A begin or commit message is known by its first byte alone.
- `app/` connects the library to a server with `tokio-postgres` and waits for asynchronous
  handlers.
- `tests/` runs the library.

A message that is malformed or cut short, a row of a table that was not described, and a frame
that carries no part of the log are passed over; the stream goes on. It also goes on when a handler
fails; the failure is reported as a handler error.
