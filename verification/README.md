# aegis

A record service (Postgres-backed JSON records over HTTP) shielded by a
sliding-window rate limiter, idempotency-key deduplication, request
coalescing and a two-level cache. The service's rules are a Verus-verified
library; the HTTP server and the Postgres and Redis round trips around it are
ordinary Rust.

## Layout

- `src/` — the verified library.
  - `text` — trimming, decimal text, prefix and field splitting, `u8` parsing.
  - `config` — settings, the listen address, trusted proxy networks.
  - `limiters` — the sliding-window limiter: window keys, members, decisions.
  - `deduper` — key hashing, the Bloom filter ring (`bloom`), the Redis claim
    protocol (`redis`), and the deduper that combines them.
  - `coalescer` — the table of leaders in flight, the follower's step after
    waiting, and the retry backoff.
  - `cache` — which cache level is read, filled and cleared.
  - `api` — error mapping, record validation, and the middlewares' plans.
- `app/` — the server: settings from YAML, Postgres and Redis connections,
  the axum handlers and middlewares, the coalescer's tasks and channels.
- `tests/` — tests of the library on concrete values.

## Checking

Verus proves the library against its contracts; the laws it states (framing
injectivity of hashed keys, replay of recorded responses, Bloom key
retention measured from the insert, rotation by index range, single-flight
coalescing for any number of requests and re-election after a vanished
leader, read-after-write and read-after-invalidate through the cache levels) are proof functions in the modules they concern.
