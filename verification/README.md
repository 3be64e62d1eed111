# llm_proxy

A monitoring proxy for OpenAI-compatible LLM APIs. It routes each request to an upstream
provider, records usage, timing and token counts, archives request and response payloads
encrypted and compressed on disk, and shows everything in a small web dashboard.

The logic is a Verus library under `src/`, each function with a contract that Verus proves:

- `config`, `routing`: configuration defaults, validation, path resolution and model routing.
- `auth`, `crypto`: key and session tokens, cookies, Argon2id passwords, the master key and
  the authenticated encryption of secrets.
- `proxy`, `tokens`, `payload`, `records`: planning and recording an upstream exchange,
  token accounting, payload archives and the rows written to the database.
- `render`, `dashboard`: the server-rendered dashboard pages and form checks.
- `monitor`: parsers of `/proc`, `df` and `nvidia-smi` output and counter deltas.
- `json`, `names`, `text`: a JSON value model, a sorted name map and text helpers.

`app/` holds the program around it: the command line, the HTTP servers, SQLite, file I/O,
the monitoring task and the values that are floating point.

Configuration maps (routes and model mappings) are `NameMap`s: a `Vec` of name and value
pairs kept sorted by name with no name twice, an invariant Verus checks on every insert.
std's `BTreeMap` would do the same, but vstd's specifications of it hold only for key types
whose ordering Verus knows (`key_obeys_cmp_spec`), and vstd gives `String` no ordering
specification; lookups by `&str` are not covered either. The sorted `Vec` keeps the same
ascending order and gives each lookup and insert a contract over its entries.
