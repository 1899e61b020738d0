# dvra

A verified library for a deliberately vulnerable training service, and the
programs around it.

- `src/text.rs` — strings as character sequences: trimming, splitting,
  searching, decimal numbers, and the few calls into `std` that need a
  stated contract.
- `src/dvr/` — a request router and its feature handlers, each beside its
  hardened counterpart, with a small in-memory user and document database.
- `src/artifact_service/` — tenant authorization, the artifact envelope
  parsers, worker configuration and processes, the artifact lookup, and the
  lab control tool's decisions.
- `src/review_lab/` — the training bundle format and its extraction plan,
  configuration gates, and the lab API's decisions.
- `src/platform/` — the tenant-aware artifact store, the fetch service's
  egress policy and response checks, replace-in-place cells, and the API's
  artifact routes.
- `tests/` — the behaviour on concrete inputs.
- `app/` — `main`, file and network I/O, HTTP servers, process spawning, and
  the serde forms of the configuration types.
