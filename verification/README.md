# russell

Russell watches a Linux host: it journals probe samples and events in a
hash-chained SQLite journal, reacts to threshold breaches with reflex
arcs under a firing budget and circuit breaker, and, when asked for
help, composes a SOAP bundle for an LLM (Jack, the Nurse) or falls back
to an offline summary. Actions the model proposes are resolved against
loaded skill manifests, an MCP tool registry and the operator's consent
before anything runs.

## Layout

- `src/` — the library, verified with Verus. Every function whose
  result can be stated carries a contract (the wall-clock readers
  state none: any reading is possible); laws that relate several functions are public proof
  functions (`lemma_*`). Calls into outside crates (SHA-256, hex, time,
  chrono, getrandom, urlencoding, age, base64) go through small trusted
  wrappers whose contracts say what the crate promises.
  - `hash_chain`, `journal`, `event`, `time`, `paths`, `env`, `config`,
    `profile`, `identity`, `risk`, `reflex`, `schedule`, `skill`,
    `sovereignty`, `inference`, `encryption` — the core.
  - `doctor` — the Nurse: SOAP composition, dispatch decisions, error
    tags, reply reading, action resolution.
  - `meta` — the meta pipeline: action parsing and classification,
    sanitising, symptoms, knowledge selection (0/1 knapsack), prompt
    blocks and templates' headers, the fallback router.
  - `mcp` — the hKask client's configuration, loopback check, tokens,
    tool registry, the tool port and call results, status handling and
    the read-only server tools' decisions.
- `tests/` — tests of the library, run against the compiled crate.
- `app/` — ordinary Rust around the library: files, SQLite, HTTP, the
  writer thread, floating-point statistics, and the help pipelines.
