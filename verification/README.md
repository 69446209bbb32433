# signaling_server

The matchmaking core of a netplay signaling server, written in Verus: logins and
bearer tokens, the queue for an opponent, direct challenges, rooms, king-of-the-hill
lobbies, relay credentials, match results, spectating, the general lobby, and the
sweep that drops what has grown old.

- `src/` is the library. Every request is a function on the service's state with
  an exact contract. Where a request draws something from outside (the time, a
  random identifier, the order in which a table is walked), a function whose name
  ends in `_at` or `_for` takes what was drawn as an argument, and the request
  itself says that its outcome is that function's for some draw.
  - `order_laws`, `match_laws`, `lobby_laws` and `service_laws` state what holds
    across requests: what every request keeps in order, who is paired with whom,
    how a lobby rotates, and what players are shown.
  - Calls into other crates stand in small trusted functions: `table` (the maps of
    `dashmap`), `auth` (`jsonwebtoken`), `digest` (`sha2`, `hmac`), `url`
    (`urlencoding`), `ids` (`uuid`) and `time` (`chrono`); `turn` reads the system
    clock. Their doc comments say what is taken on trust.
- `tests/` runs the library against the real crates.
- `app/` is the HTTP service around it: routes, JSON, and the calls to Discord, the
  stats service and the incident bucket. It holds the state behind a lock and
  serves one request at a time.
