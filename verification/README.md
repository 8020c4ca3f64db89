# Hypeterm

Watch and type into a terminal running on your machine, from your phone. A *publisher*
hosts the terminal, a *relay* stores its output and carries it to subscribers, and a
phone mirrors it and types back.

This crate is the logic of the publisher and of the relay, verified with Verus:

- `src/publisher/` decides what is framed, retained and sent again (`stream`, `publish`),
  routes one connection's messages to many terminals (`session`), speaks the local
  protocol of the daemon (`ipc`, `daemon`), and signs only what it means to sign (`api`).
- `src/relay/` decides what every request comes to (`auth`, `devices`, `terminals`, `ws`,
  `idempotency`), what stored rows mean (`repo`), and keeps keys, tokens, limits and
  metrics (`crypto`, `tokens`, `context`, `counts`, `metrics`).
- `src/text.rs`, `src/encoding.rs`, `src/json.rs`, `src/ids.rs` and `src/ed25519.rs` are
  what both sides share.

Everything in `src/` is a computation on plain values. A relay handler is a function of
the request, the settings and the answers it has so far; it says what it needs to know
next or how the request ends (`src/relay/step.rs`). What holds of the library as a whole
stands in proof functions whose names begin with `law_`.

`app/` holds the programs around the library: sockets, pseudo-terminals, the database and
the clock. `tests/` runs the library on concrete values.
