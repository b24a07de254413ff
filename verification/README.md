# server_dash_api

The core of a small server-administration dashboard, written in Verus.

- `src/` is the verified library: two-factor login (Basic credentials
  checked against the shadow file, then a WebAuthn security key), the store
  of pending WebAuthn challenges with their five-minute lifetime, session
  identifiers, the signing-secret file and its weekly rotation, the bearer
  token a request presents, and the decisions of the service, log and
  statistics endpoints. Each public function carries its contract; the
  `law_*` proof functions state properties that span functions.
- `app/` is the HTTP server around it (axum, tokio, zbus, sysinfo, file
  access, JSON), handing plain values to the library.
- `tests/` exercises the library on concrete values.
