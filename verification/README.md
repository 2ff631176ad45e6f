# nest-rs-http

The HTTP transport of the nestrs framework, with its decisions verified by
Verus.

- `src/` is the library: every decision the transport makes for a request or
  at boot — path canonicalization and mount-path exclusivity, API version
  selection, client-address attribution behind trusted proxies, the body cap
  plan, CORS and security-header policy, RFC 9457 problem documents, the
  settings overlay, the TLS pair rules — stated as `requires`/`ensures`
  contracts and laws (`law_*` proof functions) and proved.
- `app/` is the poem side: endpoints, extractors, the listener, the reading of
  `NESTRS_HTTP__*` variables and files. It calls the library for every
  decision and performs the I/O the decision asks for.
- `tests/` exercises the library on concrete values.
