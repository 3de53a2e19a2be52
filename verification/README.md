# openradar

Open Source Radar collects open source projects from the GitHub search API and
Hacker News (Algolia), merges the items that describe one project under a single
deduplication key, stores metric snapshots, and serves ranked, filtered listings
and a daily "rising fastest" digest.

The crate is written in Verus: the functions under `src/` carry contracts that
the verifier proves, except a few trusted items whose contracts are believed
without proof because they only call outside code:

- `collect::utc_date`, chrono's `DateTime::from_timestamp_micros` formatted as
  `%Y-%m-%d` (its text is named `utc_date_text`, not computed);
- `text::push_char`, std's `String::push`;
- the `Clone` of `serde_json::Value` (a derived deep copy), and the declaration of
  that type, which verified code carries through unopened.

## Layout

- `src/` — the verified library:
  - `normalize` — deduplication keys (`gh:`, `url:`, `hn:`), the GitHub link
    grammar, link normalization, and the laws that a story linking a repository
    merges with it and that case, scheme and `www.` do not change identities;
  - `collect` — search parameters, reply status rules, paging, retries with
    backoff, persistence runs, and the conversion of replies into raw items;
  - `token` — rotation over GitHub tokens;
  - `digest` — when the daily digest goes out and how its markdown reads;
  - `query` — sort orders, filters, paging and the listing statements;
  - `config` — settings from environment variables;
  - `api`, `notify` — endpoint decisions and the Server酱 channel;
  - `models`, `source`, `text` — the data model and character-level helpers.
- `tests/` — tests run against the compiled library.
- `app/` — the program around the library: HTTP server, PostgreSQL storage,
  HTTP clients, schedulers and serialization.
