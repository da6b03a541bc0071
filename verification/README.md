# cherry_pit

The decision-making core of the cherry-pit web and work-queue adapters,
written in Verus and proved against its contracts.

- `src/` is the verified library: request-path normalisation and
  segment sanitising, `If-None-Match` and `Accept-Encoding` handling,
  page preparation (content types, weak ETags, zstd variants, prepared
  headers), the cache fallback chains and clean-URL aliases, the two
  configuration builders, correlation extraction from trace headers,
  the WebSocket session state machines, the budget gate, backoff
  regulator, work queue, worker cycles and rate-limit pacing, and the
  closed-error-enum rule over `syn`'s parse of a source file.
  Each public function states what it returns; the `law_*` proof
  functions state what holds across calls.
- `app/` is ordinary Rust around it: the axum routers and handlers, the
  async plumbing that performs the waits the library's decisions ask for,
  the tracing hooks, and the enum-check command's file walk and report.
- `tests/` exercises the library on concrete values.
