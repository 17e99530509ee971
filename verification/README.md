# toplingdb_plugin

Side plugins for ToplingDB. The one plugin so far, `PrefixDeleteFactory`, makes compaction filters
that delete every key whose first four bytes, read as a big-endian number, belong to a configurable
set:

```json
{"CompactionFilterFactory": {"my_factory": {
    "class": "PrefixDeleteFactory",
    "params": {"prefixes": [1684365668], "serialize_as_json": false}
}}}
```

`src/` is the library, verified with Verus: the decisions of the filter, the counting, the binary and
JSON forms in which state travels between the nodes of a distributed compaction, and the web
interface. `src/laws.rs` states what holds of the plugin as a whole. Parsing and printing of JSON are
`serde_json`'s, behind the trusted items in `src/json.rs`.

`app/` is what surrounds the library in a running database: C callbacks and streams, the lock around
a factory's state, and registration at startup.
