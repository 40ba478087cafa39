# iterum

A context layer for agents that call brittle tools. It stores facts,
recovery playbooks, recent observations, constraints and recurring failure
patterns per namespace, tool and resource, extracts them from tool output,
and answers a retrieval request with the best-ranked records of each kind and
a prompt-ready bullet list.

The library under `src/` is verified with Verus: every public function with
more than one possible result states it in its `ensures`, and the laws of the
store, the ranking and the retrieval stand as public proof functions.

- `text` — string helpers over `Seq<char>` (lines, trimming, substrings, hex).
- `ids` — stable identifiers: SHA-256 of a canonical JSON payload.
- `models` — records, requests and responses, and their views.
- `ranking` — deduplicating, stable, top-k ranking of each record kind.
- `formatter` — the prompt-context text.
- `store::memory` — the in-memory store (upsert by key, TTL expiry, a cap
  of failure patterns per resource, occurrence counting).
- `store::redis_keys` — key layout and record decisions of the Redis store.
- `extractors` — SQLite, web and CLI output extractors and their registry;
  `extractors::pattern` holds the regular expressions.
- `retrieval`, `events` — retrieval of a context bundle and storing of
  extracted records.
- `config` — configuration from the environment's values.

`app/` is the HTTP service (axum, tokio, Redis I/O, serde shapes); `tests/`
holds the tests.

A confidence is kept as the JSON number it was written as, beside the rank the
ordering reads from it (the confidence times 1000, truncated); a time as the
seconds and nanoseconds since the Unix epoch that chrono reports. The JSON
shapes in `app/` convert to floats and RFC 3339 dates.
