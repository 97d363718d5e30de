# apalis-surrealdb, verified core

A task queue storage for [apalis](https://crates.io/crates/apalis) on SurrealDB.

- `src/` is the library that Verus verifies: every decision the storage takes
  between two database round trips — how a transaction's errors are read and
  when it is retried, which fields a pushed task is stored under, how task ids
  are written and read back, which status a finished attempt earns, how claimed
  rows are split, how the poll and live fetchers step, how a wait narrows, how
  the shared registry admits queues and routes tasks, how the sink flushes, and
  how the queue overview and the board statistics are assembled.
- `app/` is the storage itself: the connection, the SurrealQL statements, the
  apalis traits, the streams and futures, which drive the library.
- `tests/` run the library on concrete values.

## Collections

The errors of a transaction keep their `HashMap<usize, _>`: with integer keys
vstd's specification of `HashMap` applies, and `classify_tx_errors` states its
result over the map's view.

Three collections of the storage are keyed by text: the shared registry's
queues (`HashMap<String, _>`), the ids a wait still expects (`HashSet<String>`),
and the queue overview's per-queue tables (`BTreeMap<String, _>`). vstd's
specifications of the hash and B-tree collections hold only for key types that
obey its key model (`obeys_key_model`) or its comparison laws
(`key_obeys_cmp_spec`), and vstd establishes neither for `String`. On such a
map every `insert` or lookup leaves its result unspecified. These collections
are therefore vectors here, with what the map or set gave stated and proved:
the registry's names stay distinct (a type invariant of `QueueRegistry`); a
wait is modelled by the set of ids it still expects (`WaitTracker::pending`);
and the overview's rows come in the order of their queue names (`text_order`,
the byte-wise order that `String`'s `Ord` follows).
