# altc

The agent that sits in front of a Wolf streaming server: accounts and their
tokens, the game library and its synchronisation with Wolf, launch progress
for clients, and the checks that keep library paths inside their roots.

- `src/` is the library, verified with Verus. Every function there carries a
  contract; calls into other crates (serde_json, sha2, hex, rand, argon2,
  mime_guess) and a few std functions go through small trusted wrappers whose
  contracts say what is assumed of them. Laws that relate several functions
  are stated and proved as `law_*` proof functions.
- `app/` is the program around it: the HTTP server (axum), the SQLite
  database (sqlx), the Unix-socket clients for Wolf and Docker, HTTP fetches
  of store metadata, and the event bridge. It does the I/O and asks the
  library what to do.
- `tests/` exercises the library on concrete values.
