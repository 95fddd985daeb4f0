# notify_api

An email-relay service. Applications send mail through an HTTP endpoint
(`POST /send/email`), which picks a registry (Gmail over SMTP, or SendGrid's
web API) from routing rules in PostgreSQL; mail clients can also connect to
an SMTP proxy that authenticates them against stored credentials, applies a
rate limit and relays them to their registry's SMTP server.

## Layout

- `src/` — the library, verified with Verus. It holds the service's
  decisions and data: rate-limit settings and the reservation plan
  (`rate_limit`), the settings store and its refresh (`appdata`), address
  allow-lists (`access`), the authentication precondition (`auth`), routing
  rules and registries (`registry`), the send request and delivery route
  (`send`), the MIME message (`mime`), the SendGrid payload (`sendgrid`),
  replies and the response envelope (`reply`), and the SMTP proxy's
  dialogue as a state machine (`smtp`). Calls into `base64`, `chrono`,
  `chrono-tz` and std's text functions sit behind small wrappers in
  `encoding`, `clock` and `text`, whose contracts are trusted.
- `app/` — the program: environment, database queries, HTTP server, TCP and
  TLS streams, the SMTP proxy's loop, and JSON (de)serialization. It calls
  the library for every decision.
- `tests/` — tests of the library.
