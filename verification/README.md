# watcher_server

A websocket relay between trading nodes and the clients that watch them,
with an HTTP endpoint for listing and uploading assets.

- `src/` is the verified library (Verus): the configuration and its
  memoisation, the asset list (kept sorted by creation time) and the upload
  protocol, the subscription handshake, the send loop with its retries, the
  dispatch of incoming messages, and the node registry. Each protocol is a
  state machine: a step takes what happened and returns what to do next, and
  its contract is a transition function over plain values. The laws of each
  machine are proof functions beside it.
- `app/` is the server itself (axum, tokio, clap, serde_json): it performs
  the actions the library asks for and hands the outcomes back as events.
- `tests/` runs the library on concrete values.

Client access tokens are refused: `app/` holds no key to check a token
against, so only nodes can subscribe.
