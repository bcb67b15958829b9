# c-lightning-http-plugin

A c-lightning plugin that proxies JSON-RPC requests arriving over HTTP (with
Basic authentication) to lightningd's unix domain socket.

- `src/` is the verified library (Verus): the framing of lightningd's replies
  (`async_io`), the answers to lightningd's plugin requests and the reading of
  its `init` configuration (`rpc`, `json`), the derived connection and
  authentication settings and the state that awaits them (`init_info`,
  `lightning_socket`), and the decisions of the HTTP front end (`server`).
- `app/` is the program around it: the stdin/stdout loop with serde, the
  hyper server, the tokio streams and the channel between the threads.
- `tests/` runs the library on concrete values.
