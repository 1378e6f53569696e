# duralumin

A podcast archiver: it fetches feeds on a schedule, decides by rules which episodes to
download, archives them, and serves the archive as feeds of its own.

- `src/` is the logic, verified with Verus: every function carries a contract that says what
  it returns or changes.
- `app/` is the program around it: the database, the network, the disk, the terminal and the
  command line.
- `tests/` runs the library on concrete values.

| Module | Subject |
|--------|---------|
| `episode`, `feed`, `ids`, `filename` | episodes, feeds, identifiers and names of files |
| `rules` | rules, their validation and the engine that gives an episode its action |
| `feed_parse`, `markup`, `playtime` | fetched feed documents, which of them can be read, and the episodes in them |
| `feed_sync` | new episodes, rechecks and the purge of episodes that left their window |
| `downloader`, `downloads` | attempts, resumption, checks and pauses; the course of one download |
| `metadata` | the tags of an audio file |
| `rss_gen`, `server` | the feeds that are served, who may read them, and what a request is answered |
| `storage` | rows and columns of the database, and which episodes a filter keeps |
| `config`, `paths`, `cli`, `tui` | settings, commands and the terminal browsers |
| `text`, `time`, `spans`, `weburl`, `http` | texts, points in time and lengths of time, addresses and status codes |

What a call into another crate returns is stated once, above the function that makes the call,
and believed without proof. Everything else is proved from there.
