# rag_qdrant

Retrieval-augmented generation over a Qdrant vector collection, as a
library with machine-checked contracts. Six tools are offered to a host:
`rag_search`, `rag_upsert`, `rag_ingest`, `rag_delete`,
`rag_collection_ensure` and `rag_list`.

## Layout

- `src/` — the verified library.
  - `json.rs` — the JSON model the contracts speak of, and the trusted
    conversions to and from bytes through `serde_json`.
  - `text.rs` — whitespace, trimming, substring search, decimal printing.
  - `fields.rs` — typed members of a decoded JSON object.
  - `config.rs` — configuration, its per-call resolution from the
    initialisation baseline and the tenant overlay, the baseline store.
  - `input.rs` — each tool's arguments, parsed and validated.
  - `chunk.rs` — character-window chunking.
  - `embed.rs` — the embeddings request and response.
  - `qdrant.rs` — Qdrant requests, response parsing, chunk point ids.
  - `listing.rs` — grouping a scroll page by document.
  - `host.rs` — the host calls, and the recorder through which the
    operations reach the host: it sends exactly the request it records, and
    its type invariant says the host answered every recorded call.
  - `ops.rs` — the operations, specified by the sequence of host calls
    each makes and what it returns for every sequence of host replies,
    with the laws on the order of those calls.
  - `tool_meta.rs`, `extension.rs` — the tool catalogue and the entry
    points the host calls.
- `tests/` — the test suite, run against the compiled library.
- `app/` — the process around the library: the instance-wide baseline.
