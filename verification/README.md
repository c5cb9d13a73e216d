# Cache service

An in-memory key-value cache behind a REST API. Entries may have a time to live of their own, and
the cache is written to a snapshot on shutdown and brought back on startup.

* `src/` is the library: what each request does to the cache and what it is answered, how long
  entries live, what goes into a snapshot and what comes back, and which of several concurrent
  lookups does the work. Its contracts are proved by Verus; `src/laws.rs` states what holds of the
  service as a whole.
* `app/` is the server around it: HTTP, the shared cache, the snapshot file, signals.
* `tests/` runs the library, together with the crates that it calls.

## API

| Request                         | Effect                                                          |
|---------------------------------|-----------------------------------------------------------------|
| `POST /cache/{key}`             | stores `value` (any JSON) for `ttl` milliseconds, or for good   |
| `GET /cache/{key}`              | the value under the key                                         |
| `GET /cache?prefix={prefix}`    | the keys that begin with the prefix, and when they expire       |
| `DELETE /cache/{key}`           | drops what is stored under the key                              |
| `DELETE /cache/patterns/{text}` | drops what is stored under every key that holds the text        |
| `GET /health-check`             | whether the service is up                                       |

`PORT` (8080) and `SNAPSHOT_LOCATION` (`cache-snapshot.rmp`) set the port and the snapshot file.

A value whose time to live is 0 is not stored, and what was stored under its key is dropped.

A snapshot holds each entry's deadline, so an entry expires when it would have expired without the
restart, and one whose deadline has passed does not come back.

The server runs a demonstration instead where its first argument is `base64-demo` or
`singleflight-demo`.
