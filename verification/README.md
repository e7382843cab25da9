# tork_core

The decision logic of the Tork web framework, written in Verus with its
contracts proved: route tables and request matching, path normalization,
request contexts and extractors, error rendering (with server errors
redacted), the middleware policies (CORS,
trusted hosts, HTTPS redirects, proxy headers, request ids, security headers,
body limits, compression), Server-Sent Events encoding and streaming, upload
limits and file rules, the application lifecycle state machine, log record
layout, nested configuration values, and the parity benchmark's checks.

Layout:

- `src/` — the verified library. Calls into `matchit`, `http`, `garde`,
  `flate2`, `mime`, `infer`, `multer`, `serde_json` and `uuid` go through small trusted
  wrappers whose contracts name what the outside code returns.
- `tests/` — tests of the library on concrete values.
- `app/` — the runtime around the library: the middleware layers applied to
  buffered `http` requests and responses, type-erased state, JSON error
  bodies, the log writers, the SSE and multipart drivers, the lifecycle
  runner, upload file I/O, the broadcast hub, the typed cache handle, and the benchmark report.
