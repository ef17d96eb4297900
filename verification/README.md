# matrix_nio

The logic of a Matrix client, verified with Verus, and a thin client over HTTP
around it.

- `src/` is the library. It says what goes over the wire for a login, a sync and
  a message, takes the replies, and says step by step what a sync reply asks for
  and how a sync without end goes on. Every function has a contract;
  `src/laws.rs` and `src/plan_laws.rs` hold what is true of the client as a whole.
- `src/outside.rs` holds all that is taken from other crates: the encoding of
  requests and the decoding of replies (`ruma-client-api`), URLs (`url`), header
  values (`http`), timeouts (`js_int`), room ids (`ruma-identifiers`), and the
  set-up of the HTTP client (`reqwest`). Their contracts are believed, not proved.
- `app/` carries requests, waits for callbacks and sleeps.
- `tests/` runs the library on concrete values.

A function that asks something of its arguments, such as that a URL parses, has a
companion whose name starts with `try_`. It tests this and gives `None` where it
does not hold.
