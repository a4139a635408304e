# codex_quota

How much is left of the quotas of Codex accounts: how that is read from responses, logs and session
files, kept with the accounts, repaired and refreshed. The library is written in Verus: every function
states what it returns. All are proved to return it but the few that call outside code: what those
state of it is taken on trust, and their comments say what that is.

- `src/json.rs`, `src/text.rs`, `src/text_map.rs`, `src/double.rs`, `src/numbers.rs`, `src/clock.rs`,
  `src/urls.rs`: values, and the few outside functions that the library relies on.
- `src/models/`: accounts, quotas, and the settings of the local access service.
- `src/quota/usage.rs`, `messages.rs`, `snapshot.rs`, `provider.rs`: what endpoints answer.
- `src/quota/direct.rs`, `events.rs`, `sessions.rs`, `logs.rs`, `identity.rs`, `scan.rs`: what Codex
  records itself, and whose it is.
- `src/quota/preference.rs`, `apply.rs`, `repair.rs`, `refresh.rs`: what becomes of an account.
- `src/quota/laws.rs`, `message_laws.rs`, `order_laws.rs`: what holds of all of it.
- `app/`: files, databases and requests, in ordinary Rust.
