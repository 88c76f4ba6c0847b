# lute

The verified core of Lute, a crawler and recommendation engine for the
RateYourMusic catalogue. The library holds the logic that decides what the
service stores, queries and crawls; every function in `src/` carries a
contract proved by Verus.

## Layout

- `src/text.rs`, `src/parse.rs`, `src/lexical.rs`: characters, decimal
  notation, `FromStr` for integers, `str::split`, and the order of strings.
- `src/redisearch.rs`, `src/es_query.rs`: escaping for RediSearch and the
  shape of Elasticsearch queries.
- `src/albums/`: album read models, search queries (RediSearch and
  Elasticsearch), the index document, aggregates, duplicate detection,
  collection summaries and the rows of the relational store.
- `src/artists/`: artist read models, summaries, overviews, search records
  and the grouping of query rows.
- `src/crawler/`: crawler status, queue keys and pushes, rate limiting and
  the worker's step machine, with its retries.
- `src/parsed.rs`: what the page parser extracts from an album page.
- `src/connectors/`: the relational rows and the graph updates that the
  storage connectors write for parsed albums.
- `src/embedding_provider/`, `src/albums/embedding_provider/`: embedding
  documents, their ids and cache keys, and the one-hot encoding.
- `src/ranking.rs`, `src/item_with_factor.rs`: ranking and weighted tallies.
- `app/`: serialisable forms of the records, the floating-point figures
  (average ratings, median year, embedding vectors) and query JSON.
- `tests/`: tests on concrete values.

Calls into `chrono`, `sha2`, `data-encoding`, `unidecode` and std's
hashing and case mapping go through small trusted wrappers whose contracts
state what those crates' sources show, including the inputs on which they
would panic.
