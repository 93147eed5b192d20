# chlorine

A small music-listening tracker ("scrobbler") with a Maloja-compatible API.

`src/` is the verified library:

- `db` — storing scrobbles, artists, albums and tracks as state machines
  that issue database requests one at a time and react to the replies
  (`artist`, `album`, `track`, `scrobble`), with the laws that whole
  sessions obey; `tables` and `scrobble_rows` model the rows and the
  transactions of the database and what it answers to each request, and
  prove what storing the same artist, album, track or scrobble a second
  time does, and that a store that gives up writes no row once abandoned;
- `routes::api::compat::maloja` — deciding Maloja submissions (which source
  they come from, the timestamp check, the scrobble to store);
- `extractor` and `maloja` — choosing how to read a request body from its
  content type;
- `parser` — splitting artist credits;
- `routes::main` — the answer of the artist page.

`app/` runs the state machines against PostgreSQL, serves the HTTP API with
axum, and imports Maloja export files. It reads its settings from the
environment variables `ADDR`, `DB_HOST`, `DB_PORT`, `DB_NAME`, `DB_USER` and
`DB_PASSWORD`.
