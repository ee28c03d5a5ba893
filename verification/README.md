# pulsecast

A WebSocket broadcast service whose decisions are verified with Verus.

- `POST /emit` takes `{"message": "..."}` from a publisher with an emit key in the `Authorization`
  header, with or without `Bearer ` before it.
- `GET /subscribe?token=...` opens a WebSocket for a subscriber with a subscribe key. It gets every
  message that is broadcast while it is connected, as a binary `{"message":"..."}`. A published
  message is broadcast unless the queue has no room for it in time, nobody is connected when its
  turn comes, or it is older than two seconds by then.
- `GET /stats` and `GET /health` report on the service.

The environment configures it: `EMIT_API_KEYS` and `SUBSCRIBE_API_KEYS` are comma-separated lists,
`PRODUCTION` switches the development keys off, `PORT` is the port to listen on (3030 by default).

## Layout

- `src/` is the verified library.
  - `auth` keys and tokens; `errors` refusals and how they are answered; `server` port and health.
  - `registry` the connected clients, ids and the connection limit, on top of `clients`, the sharded
    client store; `session` the life of one connection; `system` all connections together; `tally`
    the counts of the shards; `service` the connections and the broadcast task together.
  - `publish` from a posted text to the queue; `message` messages and their time to live; `batch` the
    broadcast task; `broadcaster` the queue's entrance and the delivery of a batch.
  - `channel`, `shard_map`, `token_map`, `queue`, `payload`, `json`, `text`, `clock` are the borders
    to tokio, dashmap, flume, bytes, warp, serde_json and std: what is relied on there, and not
    proved, is stated in the contracts of their functions.
- `app/` is the program: routes, sockets, timers.
- `tests/` runs the library with the real crates.
