# wikistream_ingest

The counting core of the wikistream ingest daemon, verified with Verus.

The daemon tails Wikimedia's `recentchange` event stream, batches events and
commits each batch to Postgres as one transaction: raw rows, totals rows at
minute/hour/day grain, per-wiki rows at hour/day grain, the cursor and a
ledger row. Everything that decides *what* is written, and whether a batch
is cleared or kept after its transaction, lives in `src/` and is proved
against its contract. `app/` talks to the network, the database and the file
system, and keeps the per-bucket unique-editor sketches (HyperLogLog): it
feeds them the users that `push` reports and serialises them into the totals
rows, since the sketch's hasher needs serde's derives.

## Layout

- `src/time.rs` — UTC instants, grains and bucket keys; the chrono calls
  (RFC 3339 parsing, day differences, hour stamps) behind trusted wrappers.
- `src/text.rs` — character-level helpers: equality, ordering,
  white-space fields, decimal parsing.
- `src/event.rs` — the recentchange event and its byte delta.
- `src/tally.rs` — the counters and their model: per-bucket and per-wiki
  tallies over the raw rows, and the order in which buckets appear.
- `src/buffer.rs` — the batch buffer; `push` keeps every bucket's counters
  equal to the tally of the batch's raw rows.
- `src/wiki.rs` — per-wiki deltas and the wiki id directory.
- `src/flush.rs` — the plan of a batch's transaction.
- `src/runtime.rs` — the decisions of the daemon's loops: resume gaps,
  the batch commit protocol (`flush_start`, `flush_finish`) and its back-off, the event-rate window, archive rotation and retention,
  the resident-size reading.
- `src/laws.rs`, `src/order.rs` — properties that span functions (wiki rows
  add up to totals, finer buckets add up to coarser ones, a bucket exists
  exactly when a content edit falls in it, counters do not depend on the
  order of events, ...).
- `app/` — the daemon: SSE client, Postgres writes, sketches, archive files.
