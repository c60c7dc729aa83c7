# fastly_inspect

Collects information about a client's connection to a CDN: geolocation,
resolver, request headers seen at the edge, POP assignments, POP latencies
and a rough bandwidth figure.

- `src/` is the library, verified with Verus: service addresses (`urls`),
  JSONP framing (`jsonp`), the records (`model`), the inspection state and
  its update per answer (`inspect`), the POP latency table (`latency`),
  throw-away host names and random suffixes (`perfmap`), and the static-site
  router and content types (`pages`).
- `app/` is the command-line program and the edge handler: HTTP requests,
  JSON (de)serialization, timing, time-to-first-byte probes and the
  bandwidth computation in floating point.
- `tests/` exercises the library on concrete values.
