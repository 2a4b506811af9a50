# backend

The web backend of the EzPlace Network Minecraft community site, with its
logic verified in Verus.

- `src/` is the verified library:
  - `varint`, `packet`, `response`: the server list ping. Variable-length
    integers, the handshake and status request packets, and the decision of
    what to read next while the status response arrives.
  - `status`: the status document (and the public status API's answer) read
    into the stats panel's values.
  - `session`, `ctx`: the session token kept in the `auth-token` cookie and
    the request context that it resolves to.
  - `html`: the login flow and the HTML fragments that the handlers return.
  - `json`, `text`, `error`, `models`: serde_json calls, text helpers, the
    error type and the data types.
- `app/` is the axum server around it: routes, middleware, cookies, the TCP
  connection to the game server and the HTTP requests to Mojang.
- `tests/` runs the library on concrete inputs.
