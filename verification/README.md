# monoize

The verified core of an API gateway that forwards model requests to
upstream providers, bills their usage, and serves an administration
dashboard.

- `src/` is the library, written in Verus: every function carries a
  contract and is proved against it, and the laws that tie functions
  together are stated as proof functions.
- `app/` is the plain Rust around it: reading the process environment,
  JSON forms of request and response bodies, and the float-to-decimal
  bridge for stored multipliers.
- `tests/` runs the library on concrete values.

Main modules: `handlers` (billing, routing, channel health, attempts),
`breakdown` (billing breakdowns), `request_body` (known and unknown body
members), `json` and `usage` (plain JSON values, usage reports),
`reasoning` (reasoning text and signatures), the stream adapters
(`chat_stream`, `messages_stream`, `chat_responses_stream`,
`messages_responses_stream`, `gemini_stream`, `responses_passthrough`,
`synthetic_stream`, `forwarding`, `sse`), `glob` and `billing_rate_store`
(model patterns, price catalogs), `custom_transforms` (transform
frontmatter, sandbox limits and outcomes), `dashboard_handlers` (dashboard
request rules), `users` (canonical group lists), `settings` (pricing keys),
`db`, `bounded_response`, `auth`, `error`.

Each stream adapter is a state machine with an opening, a step per upstream
event and a closing, all decided in `src/` (`sse::events_before_done` says
where an upstream stream is cut). `app/streams.rs` holds the wire form of the
events they return; the server loop that reads upstream bodies and writes
downstream ones is not part of this crate.
