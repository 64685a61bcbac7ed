# rocket_websocket

Server side of the WebSocket opening handshake (RFC 6455), verified with Verus.

- `src/ascii.rs` — ASCII case-insensitive and exact string comparison.
- `src/headers.rs` — request/response headers, looked up by name ignoring ASCII case.
- `src/accept.rs` — the `Sec-WebSocket-Accept` value (SHA-1 and base64 are called from the `sha1` and `base64` crates).
- `src/handshake.rs` — the decision on a handshake request: 426, 400 or 101 with its headers.
- `src/websocket/` — the request guard that holds the pending upgrade and the registered handler.
- `src/tungstenite.rs` — the echoing guard and the decisions of its echo worker.
- `app/` — the asynchronous edge (hyper upgrade, tokio-tungstenite streams, tokio tasks).
