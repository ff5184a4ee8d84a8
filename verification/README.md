# intiface_webhook

The logic behind a small HTTP webhook server that lets paired web
applications drive the devices of a device-control engine, verified with Verus.

- `src/session_manager.rs` — pairing sessions: creation (dropping the oldest
  when full), lookup by pairing token, revocation, listing, webhook URLs.
- `src/webhook_server.rs` — the server's state (sessions, devices, pairing
  token, device address) and what each endpoint answers; device state kept in
  step with the engine's `DeviceAdded` / `DeviceRemoved` messages.
- `src/firebase_auth.rs` — the steps of checking a Firebase ID token: key id
  from the header, the hour-long key-set cache and reading a fetched key set,
  key decoding, the RS256 signature check, the claims and the issuer check.
- `src/keyed.rs` — a string-keyed table with unique keys, modelled as a map.
- `src/json.rs`, `src/text.rs`, `src/environment.rs` — JSON values, text
  helpers, random ids and the clock.
- `app/` — the HTTP server (axum), locks, fetching Google's key set over the
  network, and the JSON forms of the library's types.
