# cube_terminal

An interactive terminal over WebSocket: a browser is bridged to the PTY of a
shell inside a running sandbox.

The library in `src/` takes the decisions and is verified with Verus. It does
no I/O: it says which request to send, which message to write and which error
to answer with, and takes what came of it. What it calls of `http`, `axum` and
`serde_json` stands behind wrappers whose contracts are stated, not proved;
each says above it what it claims.

- `headers`, `handshake`, `rate_limit`: what a request says.
- `auth`, `sessions`, `admission`: whether a handshake is upgraded.
- `connect`, `json`, `envd`: the conversation with the daemon in the sandbox.
- `session`: a terminal from its start to its teardown.
- `config`, `error`, `messages`, `outbound`, `audit`, `strings`: shared parts.

The public proof functions named `law_*` state what holds of the library as a
whole, such as that a session that is over has killed the shell it knew of exactly once.

`app/` is the service around the library: the endpoint, the rate-limit
middleware, the HTTP client, the timers and the audit log.
