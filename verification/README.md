# Transformation engine

A batch job that claims encrypted records from a PostgreSQL database, puts the records that belong
together into aggregates, has each aggregate transformed by mapping rules, and stores either the
result for delivery or the errors. A scheduler may start the job; the two talk over a Unix socket, one
JSON object to a line.

- `src/` holds the logic of the job and is verified with Verus.
  - `job`: what to do next: claim, start a task for which aggregate, wait for one, finish or give up.
  - `fragments`, `aggregate`, `store`: from claimed rows to aggregates, from decrypted fragments to a
    plan, and from the outcome to the changes in the database.
  - `rules`, `registry`: the mapping rules and the sources that they belong to.
  - `scheduler`, `report`: what is said to the scheduler and what it replies.
  - `args`, `database`, `key`: the arguments, the connection and the master key.
  - `json`, `text`: JSON by way of `serde_json`, and plain text.
- `app/` holds `main` and what it needs of the world: the environment, the socket, the database, and
  the pipeline crate that decrypts and transforms. It is not verified. With the calls go a few
  decisions on what they return: that a new key is made where the topic has no active delivery key,
  which TLS mode the connection has, and that what is wrong with a rule's chain is reported before a
  later column that cannot be decoded.
- `tests/` runs the library on given values.
