# mockingbird

Records HTTP interactions into cassettes and replays them, for deterministic tests.

- `src/` is the library, verified with Verus: cassette types and their index,
  matchers, filters, the record/replay decisions of the client, the middleware
  layer and the proxy, body storage (text or base64), URL normalization, and the
  command line's parsing and cassette edits. Calls into base64, serde_json,
  chrono, flate2 and http's `StatusCode` go through small trusted wrappers whose
  contracts are stated in their doc comments.
- `app/` is the program around it: the command line, the proxy server (hyper),
  the async client (reqwest), and reading and writing cassette files (serde).
- `tests/` runs the library on concrete values.
