# contextvm_sdk

The core of a ContextVM transport, which carries MCP (JSON-RPC) messages over Nostr events, as a
verified Verus library.

- `src/` decides: which events are accepted, how requests and responses are correlated, what a
  client or server learns of its peer, which tags and which gift wrap a message gets, how oversized
  messages are split and reassembled, and how open streams are read, written and kept alive. Every
  function states what it returns or changes over a mathematical model of its data; each module
  ends with, or is accompanied by, the laws that hold of its operations together.
- `app/` acts: it connects to relays, signs, encrypts, publishes and decrypts events, parses and
  renders JSON, runs timers and tasks, and hands the library plain values.
- `tests/` runs the library.

Time is passed in as milliseconds on a clock that the caller owns. Public keys and event ids are
hexadecimal text. JSON values are `json::Json`.

| module | what it holds |
| --- | --- |
| `json`, `message`, `tag`, `types`, `constants` | the data |
| `text`, `text_map`, `text_set`, `lru_cache`, `recency_map`, `seen_ids` | collections over text |
| `keys`, `signed_event`, `json_text` | calls of `nostr_sdk` and `serde_json` |
| `transport::routing`, `transport::discovery_tags` | addressing and discovery tags, gift wraps |
| `transport::oversized_transfer` | messages in chunks |
| `transport::open_stream` | streams of chunks |
| `transport::client` | the client end, and how its server is named |
| `transport::server` | the server end |
| `transport::laws` | client and server together |
