# rakuyomi

The core of a manga library, verified with Verus.

- `src/` is the library: the statements that go to its database and what the rows that
  come back mean, where chapters are stored and which of them have to go, how a database
  is put in the place of another, which requests are answered and what they ask for. It
  does no input or output of its own.
- `app/` does the input and output: sqlx, the file system, tmpfs mounts, HTTP.
- `tests/` runs the library, its statements against SQLite in memory among it.

Text that is not the library's own is treated by outside crates, each behind a small
function that states what is relied on: `paths`, `web`, `clock`, `tags`, `digest`,
`filenames`, `sizes` and `images`.
