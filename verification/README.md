# memguard

Detection of poisoned writes to the memory store of an LLM agent, and the alerts
that follow from them, as a Verus library.

- `src/` is the library. Its decisions are pure: events, file contents and
  alerts go in as values, and tagged events, batches and requests come out.
- `app/` holds the streams, files, timers and HTTP client around it.
- `tests/` runs the library with the crates that it is linked to.

| Module | What it holds |
|---|---|
| `poison`, `poison_laws` | signatures and the two-layer scan |
| `matching`, `tagging` | which signatures a text matches, and the tag that a match leaves |
| `rules` | signature files |
| `alert` | configuration, and alerts from tagged events |
| `flusher` | batches of alerts, one to an interval |
| `delivery`, `delivery_laws` | messages and the requests that carry them |
| `url`, `clock`, `json`, `text`, `unicode` | what these rest on |

The crates `serde_json`, `chrono` and `hyper`, and a few functions of the standard
library, are called through declarations whose contracts are taken on trust;
each of them says so in its comment.
