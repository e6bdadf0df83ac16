# polars_regex

Regular-expression support for string columns, verified with Verus.

- `src/` is the verified library:
  - `text`: byte offsets in UTF-8 text, slicing at character boundaries,
    stepping past zero-width matches, splicing replacements into spans.
  - `engine`: the choice of matching engine and its names.
  - `matches`: a match and the groups of a capture.
  - `std_engine`, `fancy_engine`: patterns compiled by the `regex` and
    `fancy-regex` crates. What a single search of an engine returns is named
    as a function of the pattern and the text; every scan, count, capture
    list and replacement built from such searches is proved against it.
  - `adapter`: one interface over both engines, and capture reads through a
    reusable buffer.
  - `lru`, `settings`, `cache`: the least-recently-used cache, the cache
    settings, and the shared and per-thread caches of compiled patterns.
  - `extract`: extraction of capture groups from nullable string columns.
  - `meta`: parsing and naming of the float format and default engine.
- `tests/` runs the library against the real engines.
- `app/` holds the process-wide state (caches and settings in statics), the
  serde form of the engine choice, and the Python bindings.
