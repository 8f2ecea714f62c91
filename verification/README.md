# rdns

A small DNS forwarder whose request logic is verified with Verus.

Two servers share the library:

- the record-table server answers questions from local records (A, AAAA and
  CNAME, following aliases for address questions) and otherwise takes the
  first valid upstream reply;
- the plugin-pipeline server passes each question through configured plugins
  (`cache`, `hosts`, `blackhole`, `fast_forward`), chasing aliases for at most
  ten hops; an answer that did not come from the cache is stored in the first
  cache plugin, replacing what it held for the question.

## Layout

- `src/` — the verified library.
  - `names.rs`: domain-name text helpers (ASCII case folding, prefixes, suffixes).
  - `dns.rs`: DNS records, questions, headers and messages as plain values.
  - `textparse.rs`: trusted wrappers around the parsers of hickory-proto and url.
  - `config/`: the configuration types of both servers.
  - `plugins/`: the plugins, the record table they look names up in, the
    cache's storage (a `moka::sync::Cache`), and plugin creation.
  - `handler/`: the pipeline as a state machine (`pipline_handler.rs`) and the
    record-table server's lookup and response logic (`request_handler.rs`).
- `tests/` — tests of the library on concrete values.
- `app/` — the program: command line, configuration files, logging, sockets,
  upstream connections and the loops that drive the library's state machines.
