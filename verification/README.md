# oplire

The decisions of a reverse proxy for `/v1/responses`, verified with Verus.

Requests that replay encrypted reasoning are made stateless: nothing is stored, readable summaries
are asked for, and what binds a reasoning item to another caller is stripped. All other requests
pass untouched. A refusal of encrypted content and a refusal of summaries are each retried once, a
rate limit as often as the settings allow after a reset of the WARP tunnel.

- `src/json.rs`, `src/wire.rs`: documents, and the boundary to `serde_json`
- `src/rewrite.rs`, `src/request.rs`: the rewriting of requests
- `src/auth.rs`, `src/text.rs`: the `Authorization` header, and text handling
- `src/upstream.rs`, `src/reply.rs`: what is sent to upstream, what its answers mean, what callers
  get
- `src/exchange.rs`: the exchange with upstream as a state machine
- `src/config.rs`: settings
- `src/laws/`: what holds across functions
- `app/`: the HTTP handlers around the library
