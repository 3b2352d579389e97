# seer

The decision logic of the Seer OSINT plugins (intel ingest, Reddit sources,
OpenSky polling, the scraper node fleet), written in Verus with its
behaviour stated in `requires`/`ensures` contracts and proved.

## Layout

- `src/` — the verified library.
  - `text.rs`, `llm_json.rs`, `urlenc.rs`: string handling shared by the
    plugins (Unicode trimming, line splitting, model-output JSON extraction,
    query encoding).
  - `intel/`: configuration and preferences, the content filter, title and
    summary post-processing, event extraction, geocoding and embedding
    requests, the ingest queue and row updates, the kind registry, the
    Postgres schema.
  - `reddit/`: subreddit name normalisation, source forms and edits, the
    assistant's worker and source arguments, feed URLs and post extraction.
  - `opensky/`: preferences and the OAuth token cache.
  - `fleet.rs`, `node_socket.rs`: the registry of connected nodes and the
    state machine of one node connection.
- `tests/` — tests of the library on concrete values.
- `app/` — the runtime around the library: HTTP calls, the database and
  model-client seams, background tasks, and the float-valued map and state
  data.

Calls into outside crates (`url`, `regex`, `chrono`, `feed-rs`, `rand`,
`tokio`) stand behind small trusted wrappers whose doc comments say what
their contracts claim.
