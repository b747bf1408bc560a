# web_crawler

A simulated web crawler: a coordinator remembers which URLs are known and
which were visited, producer threads "crawl" URLs (50 ms each) and report
each page (its URL and word count) with two discovered URLs, and a consumer
thread (the indexer) registers the discovered URLs and keeps the running word
total. Discovered URLs come from a shared pool, then, once it is used up, as
fake pages of the crawled URL while fewer than 50 URLs are known. The run
ends once at least 50 URLs were visited and every known URL was visited.

- `src/` is the verified library (Verus): the coordinator's record
  (`entities_system::app_global_state`), the producers' pool of discovered
  URLs and their per-message work (`entities_system::producer`), the
  consumer's per-message work (`entities_system::consumer`), and the
  supervisor that drives the main loop (`entities_system`). The record lives
  in a `dashmap::DashMap` and the actors talk over `crossbeam` channels; the
  trusted contracts of those calls are in `src/url_table.rs` and
  `src/channel.rs`, which also keeps, as ghost state, which channel each end
  belongs to and what was handed to each sending end.
- `app/` runs it: threads, blocking receives, the simulated latency, the
  mutex around the shared state, and the console output.
- `tests/` exercises the library on concrete values.
