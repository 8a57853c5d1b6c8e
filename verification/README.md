# tokio_lab

The verified core of a set of tokio study programs.

- `src/future.rs`: a `Delay` future and `MainFuture`, the state machine of an
  `async` block awaiting it, stepped against a caller-supplied clock.
- `src/kv.rs`: a mini-redis command executor over an in-memory store; frames
  are parsed by `mini_redis::Command::from_frame`.
- `src/fields.rs`: the field store of a tracing layer, ordered by the bytes of
  the field names, with the last recorded value winning.
- `src/lock.rs`: the reader/writer and mutex protocols the synchronisation
  programs exercise, and the decisions of the condition-variable threads.
- `src/echo.rs`, `src/cli.rs`: an echo server's reply to a read, and the
  verbosity message of the command-line demo.
- `app/`: the programs themselves (sockets, threads, tracing, clap), built on
  the library.
- `tests/`: tests of the library on concrete values.
