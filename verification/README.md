# kendra

The decision logic of an AI coding assistant's command-line client, written
in Verus and proved against its contracts: slash commands, configuration
merging, prompt and skill resolution, conversation compaction, message
validation and repair, the HTTP retry loop, the snapshot (shadow git)
workflow, telemetry enrichment, session bookkeeping, terminal layout of the
input area and the setup wizard's screens.

Layout:

- `src/` — the verified library. Each module states what its functions
  return as spec functions over mathematical models (`Seq`, `Json`, views),
  and proves laws such as the priority order of configuration sources, the
  idempotence of message repair, and that redacted telemetry keys never
  reach an exporter. Calls into outside crates (serde_json, regex, tokio,
  chrono, uuid, unicode-width) go through small trusted wrappers whose
  contracts say what those crates document.
- `tests/` — tests run against the compiled library with the real outside
  crates.
- `app/` — ordinary Rust around the library: clap argument parsing,
  crossterm and ratatui drawing, file and environment access, reqwest, git,
  async event loops and floating-point costs. It decides nothing of its own;
  it performs what the library's functions and state machines ask.
