# data_db

The database layer of a music library, with its logic proved correct.

`src/` is the library. Each public function states in its contract what it
returns, over spec functions that say directly what a value is:

- `playlist`, `filter`: the playlist tree and the filter tree built from stored
  rows, with the rows that hang below nothing reported;
- `song_lister`: the SQL condition that selects the songs of a filter;
- `song_finder`: the queries that list a playlist's songs in its order, and
  what refreshing a playlist's song list writes;
- `folder`: library paths, and the registration of a folder with its missing
  ancestors, as a sequence of look-ups and inserts;
- `song`: the rows written when a song is registered or its tags are saved,
  the tags read back, and the queries that list a directory's songs;
- `artwork`: the cache of the artwork registered last, and the choice of an
  equal stored image;
- `converts`, `text`, `error`, `model`: stored values, SQL text helpers,
  errors and the domain values.

Public proof functions named `law_*` state what holds across calls.

`tests/` runs the library on concrete values. `app/` holds what touches the
databases (sqlx for PostgreSQL, rusqlite for SQLite), the JSON form of filters,
and the error messages.
