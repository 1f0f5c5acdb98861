# database

A device database served over MQTT. Applications publish requests on
`<app>/<verb>/request/database/<kind>` (and realtime reports on
`<app>/notify/event/database/<model>/<model>_<id>`); the service answers on
`database/<verb>/response/<app>/...`, keeping model definitions, registered
devices and each device's latest readings in SQLite.

Layout:

- `src/` — the verified library.
  - `text.rs`, `json.rs`: splitting and joining text, and a one-level model of
    JSON values (parsing and string quoting are done by the `json` crate).
  - `common.rs`: reply topics, request fields, reply packaging.
  - `register.rs`: the route table from topic patterns to handlers.
  - `sql.rs`: the SQL statements and the shaping of query rows.
  - `protocol.rs`: what a request session asks of the database and answers.
  - `deals/`: one session per kind of request; each takes the outcome of the
    database operation it asked for and names the next one, or the reply.
  - `guid.rs`: device ids.
- `app/` — the program: SQLite and MQTT connections, the loop that runs a
  session against the database and publishes its reply.
- `tests/` — tests of the library.
