# cc_proxy

The core of a proxy that serves the Anthropic Messages API from upstreams that speak
OpenAI's Chat Completions or Responses API, verified with Verus.

- `src/` is the library. Requests are converted under the cache policy of their
  provider, answers and streams are converted back, and each function states exactly
  what it returns.
- `src/anthropic`, `src/openai` and `src/responses` hold the three wires, `src/sse` the
  streamed completion as a state machine, `src/routes` the decisions of the endpoint,
  and `src/reasoning` the effort levels.
- The functions named `law_*` state what holds across functions: that a stream ends at
  most once, that a block that was opened is closed, that a pinned effort does not move,
  that later turns leave a cached prefix alone.
- `serde_json`, `uuid` and a few functions of the standard library are called through
  small wrappers, each with a comment that says what is taken for granted.
- `app/` is the HTTP side: axum, serde and the upstream connections.
