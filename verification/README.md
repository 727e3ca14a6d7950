# my_http_server

The core of an HTTP server, written in Verus: every function under `src/` is
verified against its `requires`/`ensures` contract. `app/` is the asynchronous
server around it (hyper connections, middlewares, streaming request bodies,
serde serialisation), which Verus does not see.

## Layout

- `src/text.rs` — character-level helpers: ASCII case folding, trimming,
  splitting, decimal rendering.
- `src/headers.rs`, `src/request_parts.rs` — reading a request's head: header
  values and lookups, host, scheme, path, `Content-Length`, `Content-Type`,
  cookies.
- `src/body_content_type.rs`, `src/request_content.rs` — what kind of body a
  request carries, announced or recognised from its bytes.
- `src/content_encoding.rs` — `Content-Encoding` and undoing it (gzip, zstd,
  brotli), with a fall-back when the header is wrong.
- `src/body_pump.rs` — reading a body piece by piece and deciding whether it
  arrived whole.
- `src/form_data.rs` — `multipart/form-data` bodies and their parts.
- `src/cookies.rs`, `src/cookies_reader.rs` — `Set-Cookie` values and the
  `Cookie` header.
- `src/output.rs`, `src/result_builder.rs` — response outputs, the builder,
  compression, and the ready-made error answers.
- `src/controllers.rs`, `src/swagger.rs` — action registration, authorization
  answers, and the API documentation routes.
- `src/server_flow.rs`, `src/key_values.rs`, `src/path_reader.rs`,
  `src/request_ip.rs`, `src/convert.rs` — the rest of a request's life.

Laws that relate several functions are stated as public proof functions named
`law_*` next to what they speak of.
